//! Running commands: inside bubblewrap where it is available, directly
//! otherwise. The library decides the command line and reads the outcome;
//! the process itself is started by the caller.
use vstd::prelude::*;
use vstd::utf8::{decode_utf8, valid_utf8};
use crate::text::{push_str, string_from};
use crate::utf8::{utf8_lossy, utf8_lossy_text, utf8_text};
use crate::words::texts;

verus! {

/// Why a sandboxed run failed.
pub enum SandboxError {
    /// Strict mode asks for bubblewrap, and it is missing.
    StrictWithoutBubblewrap,
    /// The command exited unsuccessfully; its standard error, read lossily.
    CommandFailed { sandboxed: bool, stderr: String },
    /// The command's standard output is not UTF-8.
    OutputNotUtf8,
}

impl SandboxError {
    /// The error's message.
    pub fn message(&self) -> (m: String)
        ensures
            (match self {
                SandboxError::StrictWithoutBubblewrap => m@
                    == "Strict sandbox mode is enabled, but bubblewrap (bwrap) is not found."@,
                SandboxError::CommandFailed { sandboxed, stderr } => m@ == (if *sandboxed {
                    "Sandboxed command failed: "@
                } else {
                    "Command failed: "@
                }) + stderr@,
                SandboxError::OutputNotUtf8 => m@ == "command output is not valid UTF-8"@,
            }),
    {
        match self {
            SandboxError::StrictWithoutBubblewrap => string_from(
                "Strict sandbox mode is enabled, but bubblewrap (bwrap) is not found.",
            ),
            SandboxError::CommandFailed { sandboxed, stderr } => {
                let mut m = if *sandboxed {
                    string_from("Sandboxed command failed: ")
                } else {
                    string_from("Command failed: ")
                };
                push_str(&mut m, stderr.as_str());
                m
            },
            SandboxError::OutputNotUtf8 => string_from("command output is not valid UTF-8"),
        }
    }
}

/// The arguments that put a command under bubblewrap: the root read-only,
/// `/dev` and `/proc` provided, `/tmp` writable, all namespaces unshared.
pub open spec fn bwrap_prefix() -> Seq<Seq<char>> {
    seq![
        "--ro-bind"@,
        "/"@,
        "/"@,
        "--dev"@,
        "/dev"@,
        "--proc"@,
        "/proc"@,
        "--bind"@,
        "/tmp"@,
        "/tmp"@,
        "--unshare-all"@,
        "--"@,
    ]
}

/// Runs commands, in bubblewrap when it is available.
pub struct SandboxExecutor {
    strict_mode: bool,
    bwrap_available: bool,
}

impl SandboxExecutor {
    pub closed spec fn strict(&self) -> bool {
        self.strict_mode
    }

    pub closed spec fn sandboxed(&self) -> bool {
        self.bwrap_available
    }

    /// Strict mode is only ever held together with bubblewrap.
    #[verifier::type_invariant]
    spec fn strict_is_sandboxed(self) -> bool {
        self.strict_mode ==> self.bwrap_available
    }

    /// An executor for the given mode and for whether bubblewrap answered;
    /// strict mode without bubblewrap is refused.
    pub fn new(strict_mode: bool, bwrap_available: bool) -> (r: Result<Self, SandboxError>)
        ensures
            (strict_mode && !bwrap_available) <==> r is Err,
            r matches Err(e) ==> e is StrictWithoutBubblewrap,
            r matches Ok(x) ==> x.strict() == strict_mode && x.sandboxed() == bwrap_available,
    {
        if !bwrap_available && strict_mode {
            return Err(SandboxError::StrictWithoutBubblewrap);
        }
        Ok(SandboxExecutor { strict_mode, bwrap_available })
    }

    /// Whether commands run inside bubblewrap.
    pub fn is_sandboxed(&self) -> (b: bool)
        ensures
            b == self.sandboxed(),
            self.strict() ==> b,
    {
        proof {
            use_type_invariant(self);
        }
        self.bwrap_available
    }

    /// The program to start and its arguments, for running `command` with
    /// `args`: under bubblewrap, `bwrap` with the sandbox arguments, the
    /// command and its arguments; otherwise the command itself. In strict
    /// mode a command always runs under bubblewrap.
    pub fn command_line(&self, command: &str, args: &Vec<String>) -> (r: (String, Vec<String>))
        ensures
            self.strict() ==> r.0@ == "bwrap"@,
            self.sandboxed() ==> r.0@ == "bwrap"@ && texts(r.1@) == bwrap_prefix() + seq![command@]
                + texts(args@),
            !self.sandboxed() ==> r.0@ == command@ && texts(r.1@) == texts(args@),
    {
        proof {
            use_type_invariant(self);
        }
        let mut argv: Vec<String> = Vec::new();
        let program = if self.bwrap_available {
            argv.push(string_from("--ro-bind"));
            argv.push(string_from("/"));
            argv.push(string_from("/"));
            argv.push(string_from("--dev"));
            argv.push(string_from("/dev"));
            argv.push(string_from("--proc"));
            argv.push(string_from("/proc"));
            argv.push(string_from("--bind"));
            argv.push(string_from("/tmp"));
            argv.push(string_from("/tmp"));
            argv.push(string_from("--unshare-all"));
            argv.push(string_from("--"));
            argv.push(string_from(command));
            assert(texts(argv@) =~= bwrap_prefix() + seq![command@]);
            string_from("bwrap")
        } else {
            string_from(command)
        };
        let ghost start = texts(argv@);
        let mut i: usize = 0;
        while i < args.len()
            invariant
                i <= args.len(),
                texts(argv@) == start + texts(args@.take(i as int)),
            decreases args.len() - i,
        {
            let ghost before = argv@;
            let item = string_from(args[i].as_str());
            argv.push(item);
            assert(texts(argv@) =~= texts(before).push(args@[i as int]@));
            assert(texts(args@.take(i + 1)) =~= texts(args@.take(i as int)).push(args@[i as int]@));
            assert(texts(argv@) =~= start + texts(args@.take(i + 1)));
            i = i + 1;
        }
        assert(args@.take(i as int) =~= args@);
        assert(texts(Seq::<String>::empty()) =~= Seq::<Seq<char>>::empty());
        (program, argv)
    }

    /// Reads a finished command: its standard output as text when it
    /// succeeded, an error otherwise.
    pub fn outcome(&self, success: bool, stdout: Vec<u8>, stderr: &[u8]) -> (r: Result<String, SandboxError>)
        ensures
            !success ==> (r matches Err(SandboxError::CommandFailed { sandboxed, stderr: text })
                && sandboxed == self.sandboxed() && text@ == utf8_lossy_text(stderr@)),
            success && valid_utf8(stdout@) ==> (r matches Ok(out) && out@ == decode_utf8(stdout@)),
            success && !valid_utf8(stdout@) ==> r matches Err(SandboxError::OutputNotUtf8),
    {
        if !success {
            return Err(SandboxError::CommandFailed { sandboxed: self.bwrap_available, stderr: utf8_lossy(stderr) });
        }
        match utf8_text(stdout) {
            Some(s) => Ok(s),
            None => Err(SandboxError::OutputNotUtf8),
        }
    }
}

} // verus!
