//! What a finished child process left behind.

use vstd::prelude::*;
use vstd::string::StringExecFns;

verus! {

/// The exit code and the captured output of a child process.
#[derive(Debug)]
pub struct ShellProcessResult {
    pub exit_code: Option<i32>,
    pub stdout: String,
    pub stderr: String,
}

impl ShellProcessResult {
    /// Whether the process ended with exit code zero.
    pub open spec fn spec_succeeded(&self) -> bool {
        self.exit_code == Some(0i32)
    }

    /// Whether the process ended with exit code zero.
    pub fn succeeded(&self) -> (ok: bool)
        ensures
            ok == self.spec_succeeded(),
    {
        match self.exit_code {
            Some(code) => code == 0,
            None => false,
        }
    }
}

/// One thing that a running child process reports.
#[derive(Debug)]
pub enum ProcessEvent {
    /// Output on the standard stream; `None` where it was not valid text.
    Stdout(Option<String>),
    /// Output on the error stream; `None` where it was not valid text.
    Stderr(Option<String>),
    /// The process has ended with this exit code.
    Terminated(Option<i32>),
    /// Anything else.
    Other,
}

/// How the wait for a child process ended.
#[derive(Debug, Clone, Copy, PartialEq, Eq, Structural)]
pub enum ProcessEnding {
    /// The process reported that it has ended.
    Completed,
    /// The reports stopped before the process reported its end.
    Interrupted,
    /// The time allowed for the process ran out.
    TimedOut,
}

/// The characters of an optional string; none where there is no string.
pub open spec fn chunk_view(chunk: Option<String>) -> Seq<char> {
    match chunk {
        Some(text) => text@,
        None => Seq::empty(),
    }
}

/// What has been collected of a child process so far.
pub struct ProcessLog {
    exit_code: Option<i32>,
    stdout: String,
    stderr: String,
}

/// A log as a plain value.
pub struct LogView {
    pub exit_code: Option<i32>,
    pub stdout: Seq<char>,
    pub stderr: Seq<char>,
}

impl LogView {
    /// The log after an event: output is appended to its stream, and the
    /// end of the process sets the exit code.
    pub open spec fn after(self, event: ProcessEvent) -> LogView {
        match event {
            ProcessEvent::Stdout(chunk) => LogView {
                stdout: self.stdout + chunk_view(chunk),
                ..self
            },
            ProcessEvent::Stderr(chunk) => LogView {
                stderr: self.stderr + chunk_view(chunk),
                ..self
            },
            ProcessEvent::Terminated(code) => LogView { exit_code: code, ..self },
            ProcessEvent::Other => self,
        }
    }
}

impl ProcessLog {
    /// The log as a plain value.
    pub closed spec fn view(&self) -> LogView {
        LogView { exit_code: self.exit_code, stdout: self.stdout@, stderr: self.stderr@ }
    }

    /// An empty log.
    pub fn new() -> (log: ProcessLog)
        ensures
            log@ == (LogView { exit_code: None, stdout: Seq::empty(), stderr: Seq::empty() }),
    {
        ProcessLog { exit_code: None, stdout: String::new(), stderr: String::new() }
    }

    /// Takes in one event and says whether the process has ended. Output
    /// that is not valid text is left out.
    pub fn on_event(&mut self, event: ProcessEvent) -> (ended: bool)
        ensures
            final(self)@ == old(self)@.after(event),
            ended == (event is Terminated),
    {
        match event {
            ProcessEvent::Stdout(chunk) => {
                match chunk {
                    Some(text) => {
                        self.stdout.append(text.as_str());
                    },
                    None => {
                        assert(self.stdout@ + Seq::<char>::empty() =~= self.stdout@);
                    },
                }
                false
            },
            ProcessEvent::Stderr(chunk) => {
                match chunk {
                    Some(text) => {
                        self.stderr.append(text.as_str());
                    },
                    None => {
                        assert(self.stderr@ + Seq::<char>::empty() =~= self.stderr@);
                    },
                }
                false
            },
            ProcessEvent::Terminated(code) => {
                self.exit_code = code;
                true
            },
            ProcessEvent::Other => false,
        }
    }

    /// Closes the log. A process that has ended gives its result; one whose
    /// reports stopped, or whose time ran out, gives a message that names
    /// the program.
    pub fn finish(self, program: &str, ending: ProcessEnding) -> (result: Result<
        ShellProcessResult,
        String,
    >)
        ensures
            match ending {
                ProcessEnding::Completed => result is Ok && result->Ok_0.exit_code == self@.exit_code
                    && result->Ok_0.stdout@ == self@.stdout && result->Ok_0.stderr@ == self@.stderr,
                ProcessEnding::Interrupted => result is Err && result->Err_0@ == program@
                    + " did not complete"@,
                ProcessEnding::TimedOut => result is Err && result->Err_0@ == program@ + " timed out"@,
            },
    {
        match ending {
            ProcessEnding::Completed => Ok(
                ShellProcessResult {
                    exit_code: self.exit_code,
                    stdout: self.stdout,
                    stderr: self.stderr,
                },
            ),
            ProcessEnding::Interrupted => Err(String::from_str(program).concat(" did not complete")),
            ProcessEnding::TimedOut => Err(String::from_str(program).concat(" timed out")),
        }
    }
}

} // verus!
