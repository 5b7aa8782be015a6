//! The description of what to run: one `WatchProcess` per child process, and
//! the `Config` that lists them.

use vstd::prelude::*;

verus! {

/// How the command text of a process is turned into a child process.
#[derive(Debug, Clone, Copy, PartialEq, Eq, Structural)]
pub enum RunType {
    /// The whole text is handed to a shell interpreter.
    Shell,
    /// The text is split on single spaces into a program and its arguments.
    Cmd,
}

/// No variable is named twice in `environment`.
pub open spec fn distinct_names(environment: Seq<(Seq<char>, Seq<char>)>) -> bool {
    forall|i: int, j: int|
        0 <= i < j < environment.len() ==> (#[trigger] environment[i]).0 != (
        #[trigger] environment[j]).0
}

/// Mathematical model of one process description.
pub struct ProcessSpec {
    /// Label shown in front of every output line; need not be unique.
    pub title: Seq<char>,
    /// The raw command text.
    pub command: Seq<char>,
    /// The `log` setting of the description. It is carried along; no
    /// decision of the library depends on it.
    pub log: bool,
    /// The run type as written down, if any.
    pub run_type: Option<RunType>,
    /// Variables added to the child's environment, in the order given.
    pub environment: Seq<(Seq<char>, Seq<char>)>,
    /// Command that has to succeed before the main command starts; empty for none.
    pub wait_for: Seq<char>,
}

impl ProcessSpec {
    /// The run type in effect: `Cmd` unless one was written down.
    pub open spec fn kind(self) -> RunType {
        match self.run_type {
            Some(kind) => kind,
            None => RunType::Cmd,
        }
    }

    /// The gating command, if there is one.
    pub open spec fn gate(self) -> Option<Seq<char>> {
        if self.wait_for.len() == 0 {
            None
        } else {
            Some(self.wait_for)
        }
    }

    /// What every process description satisfies: the command is not empty and
    /// the environment names each variable once. (A gate, being the non-empty
    /// `wait_for`, is never empty.)
    pub open spec fn wf(self) -> bool {
        &&& self.command.len() > 0
        &&& distinct_names(self.environment)
    }
}

/// The value that `log` takes when a description leaves it out.
pub fn default_true() -> (b: bool)
    ensures
        b,
{
    true
}

/// One unit of work: a titled command, how to run it, what to add to its
/// environment, and an optional command to wait for first.
#[derive(Debug)]
pub struct WatchProcess {
    title: String,
    cmd: String,
    log: bool,
    run_type: Option<RunType>,
    env: Vec<(String, String)>,
    wait_for: String,
}

impl View for WatchProcess {
    type V = ProcessSpec;

    closed spec fn view(&self) -> ProcessSpec {
        ProcessSpec {
            title: self.title@,
            command: self.cmd@,
            log: self.log,
            run_type: self.run_type,
            environment: self.env.deep_view(),
            wait_for: self.wait_for@,
        }
    }
}

/// Whether no two entries of `env` share their name.
fn names_distinct(env: &Vec<(String, String)>) -> (distinct: bool)
    ensures
        distinct == distinct_names(env.deep_view()),
{
    let ghost names = env.deep_view();
    let n = env.len();
    let mut j: usize = 0;
    while j < n
        invariant
            n == env.len(),
            j <= n,
            names == env.deep_view(),
            forall|a: int, b: int|
                0 <= a < b < j ==> (#[trigger] names[a]).0 != (#[trigger] names[b]).0,
        decreases n - j,
    {
        let mut i: usize = 0;
        while i < j
            invariant
                n == env.len(),
                i <= j < n,
                names == env.deep_view(),
                forall|a: int| 0 <= a < i ==> (#[trigger] names[a]).0 != names[j as int].0,
            decreases j - i,
        {
            if env[i].0 == env[j].0 {
                assert(names[i as int].0 == names[j as int].0);
                return false;
            }
            i = i + 1;
        }
        j = j + 1;
    }
    true
}

impl WatchProcess {
    #[verifier::type_invariant]
    spec fn inv(self) -> bool {
        self@.wf()
    }

    /// Builds a process description. There is none for an empty command or for
    /// an environment that names a variable twice.
    pub fn new(
        title: String,
        cmd: String,
        log: bool,
        run_type: Option<RunType>,
        env: Vec<(String, String)>,
        wait_for: String,
    ) -> (made: Option<WatchProcess>)
        ensures
            made is Some <==> (ProcessSpec {
                title: title@,
                command: cmd@,
                log,
                run_type,
                environment: env.deep_view(),
                wait_for: wait_for@,
            }).wf(),
            made matches Some(process) ==> process@ == (ProcessSpec {
                title: title@,
                command: cmd@,
                log,
                run_type,
                environment: env.deep_view(),
                wait_for: wait_for@,
            }),
    {
        if cmd.as_str().is_empty() || !names_distinct(&env) {
            None
        } else {
            Some(WatchProcess { title, cmd, log, run_type, env, wait_for })
        }
    }

    /// A description that states only a title and a command: output is logged,
    /// the run type is left open, nothing is added to the environment and
    /// there is no gate.
    pub fn with_defaults(title: String, cmd: String) -> (made: Option<WatchProcess>)
        ensures
            made is Some <==> cmd@.len() > 0,
            made matches Some(process) ==> process@ == (ProcessSpec {
                title: title@,
                command: cmd@,
                log: true,
                run_type: None,
                environment: Seq::empty(),
                wait_for: Seq::empty(),
            }),
    {
        let env: Vec<(String, String)> = Vec::new();
        assert(env.deep_view() =~= Seq::empty());
        WatchProcess::new(title, cmd, default_true(), None, env, String::new())
    }

    /// The display label.
    pub fn title(&self) -> (title: &str)
        ensures
            title@ == self@.title,
    {
        self.title.as_str()
    }

    /// The raw command text.
    pub fn cmd(&self) -> (cmd: &str)
        ensures
            cmd@ == self@.command,
            cmd@.len() > 0,
    {
        proof {
            use_type_invariant(self);
        }
        self.cmd.as_str()
    }

    /// The `log` setting of the description.
    pub fn log(&self) -> (log: bool)
        ensures
            log == self@.log,
    {
        self.log
    }

    /// The run type as written down.
    pub fn run_type(&self) -> (run_type: Option<RunType>)
        ensures
            run_type == self@.run_type,
    {
        self.run_type
    }

    /// The run type in effect.
    pub fn kind(&self) -> (kind: RunType)
        ensures
            kind == self@.kind(),
    {
        match self.run_type {
            Some(kind) => kind,
            None => RunType::Cmd,
        }
    }

    /// The additions to the child's environment.
    pub fn env(&self) -> (env: &Vec<(String, String)>)
        ensures
            env.deep_view() == self@.environment,
            distinct_names(self@.environment),
    {
        proof {
            use_type_invariant(self);
        }
        &self.env
    }

    /// The text of the gating command; empty when there is no gate.
    pub fn wait_for(&self) -> (wait_for: &str)
        ensures
            wait_for@ == self@.wait_for,
    {
        self.wait_for.as_str()
    }

    /// The gating command, if there is one.
    pub fn gate(&self) -> (gate: Option<&str>)
        ensures
            gate is Some <==> self@.gate() is Some,
            gate matches Some(text) ==> self@.gate() == Some(text@),
    {
        if self.wait_for.as_str().is_empty() {
            None
        } else {
            Some(self.wait_for.as_str())
        }
    }
}

/// Everything one run is asked to do.
#[derive(Debug)]
pub struct Config {
    /// The processes to launch, all at once.
    pub processes: Vec<WatchProcess>,
}

} // verus!
