use vstd::prelude::*;

verus! {

/// What one run of a backend command left behind: whether it exited with success,
/// and what it wrote to its standard output and standard error.
#[derive(Debug)]
pub struct CommandOutput {
    pub success: bool,
    pub stdout: String,
    pub stderr: String,
}

/// A backend command line: a program and its arguments.
#[derive(Debug)]
pub struct BackendCommand {
    pub program: String,
    pub args: Vec<String>,
}

impl BackendCommand {
    /// The whole command line, program first.
    pub open spec fn argv(&self) -> Seq<Seq<char>> {
        seq![self.program@] + self.args@.map_values(|a: String| a@)
    }

    /// A command line that runs `program` with no arguments.
    pub fn new(program: &str) -> (r: BackendCommand)
        ensures
            r.argv() == seq![program@],
    {
        let r = BackendCommand { program: String::from_str(program), args: Vec::new() };
        assert(r.argv() =~= seq![program@]);
        r
    }

    /// Appends one argument.
    pub fn arg(&mut self, a: &str)
        ensures
            final(self).argv() == old(self).argv().push(a@),
    {
        self.args.push(String::from_str(a));
        assert(self.argv() =~= old(self).argv().push(a@));
    }
}

/// A read-only introspection of the running system.
#[derive(Debug, Clone, Copy, PartialEq, Eq, Structural)]
pub enum BackendQuery {
    /// The source of the mount at `/`, such as `/dev/sda2[/@active_a]`.
    RootSource,
    /// The numeric id of the subvolume mounted at `/`.
    RootId,
    /// The metadata of the subvolume mounted at `/`.
    SubvolumeShow,
    /// One line per subvolume of the filesystem.
    SubvolumeList,
}

/// The command line that answers a query.
pub open spec fn query_argv(q: BackendQuery) -> Seq<Seq<char>> {
    match q {
        BackendQuery::RootSource => seq![
            "findmnt"@,
            "-n"@,
            "-o"@,
            "SOURCE"@,
            "--target"@,
            "/"@,
        ],
        BackendQuery::RootId => seq!["btrfs"@, "inspect-internal"@, "rootid"@, "/"@],
        BackendQuery::SubvolumeShow => seq!["btrfs"@, "subvolume"@, "show"@, "/"@],
        BackendQuery::SubvolumeList => seq!["btrfs"@, "subvolume"@, "list"@, "/"@],
    }
}

impl BackendQuery {
    /// The command line to run for this query.
    pub fn command(&self) -> (r: BackendCommand)
        ensures
            r.argv() == query_argv(*self),
    {
        match self {
            BackendQuery::RootSource => {
                let mut c = BackendCommand::new("findmnt");
                c.arg("-n");
                c.arg("-o");
                c.arg("SOURCE");
                c.arg("--target");
                c.arg("/");
                assert(c.argv() =~= query_argv(*self));
                c
            },
            BackendQuery::RootId => {
                let mut c = BackendCommand::new("btrfs");
                c.arg("inspect-internal");
                c.arg("rootid");
                c.arg("/");
                assert(c.argv() =~= query_argv(*self));
                c
            },
            BackendQuery::SubvolumeShow => {
                let mut c = BackendCommand::new("btrfs");
                c.arg("subvolume");
                c.arg("show");
                c.arg("/");
                assert(c.argv() =~= query_argv(*self));
                c
            },
            BackendQuery::SubvolumeList => {
                let mut c = BackendCommand::new("btrfs");
                c.arg("subvolume");
                c.arg("list");
                c.arg("/");
                assert(c.argv() =~= query_argv(*self));
                c
            },
        }
    }
}

/// The kinds of failure of the subvolume manager.
#[derive(Debug, Clone, Copy, PartialEq, Eq, Structural)]
pub enum ErrorKind {
    /// A mutating backend command failed to launch or exited with failure.
    BackendCommandFailed,
    /// A read-only introspection command failed.
    BackendQueryFailed,
    /// Backend output did not have the expected shape.
    ParseFailed,
    /// No block device could be derived from the root mount's source.
    DeviceResolutionFailed,
    /// The mount command failed.
    MountFailed,
    /// A request to delete the subvolume mounted at `/` was refused.
    RefusedActiveRootDeletion,
}

/// A failure, with the backend command it came from and what that command reported
/// (its standard error, the output that could not be parsed, or the refused name).
#[derive(Debug)]
pub struct StorageError {
    pub kind: ErrorKind,
    pub command: BackendCommand,
    pub detail: String,
}

} // verus!
