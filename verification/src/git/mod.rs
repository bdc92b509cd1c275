//! Change records and the judgement of git's command results.

use vstd::prelude::*;
pub use self::message::create_commit_message;
use self::message::{changed_files_notice, commit_notice};
use self::parser::{encodable, parse, spec_parse};
use crate::notify::Notice;
use crate::text::{decimal, to_decimal};

pub mod message;
pub mod parser;
pub mod staging;

verus! {

/// One change in the working tree, as the porcelain status stream reports it.
#[derive(Debug)]
pub struct Status {
    /// State of the staging area relative to HEAD.
    pub index_state: char,
    /// State of the working tree relative to the staging area.
    pub tree_state: char,
    /// Path as reported; for a rename, the path the file had before.
    pub from_path: String,
    /// Destination path of a rename.
    pub to_path: Option<String>,
}

/// Mathematical value of a [`Status`].
pub struct StatusView {
    pub index_state: char,
    pub tree_state: char,
    pub from_path: Seq<char>,
    pub to_path: Option<Seq<char>>,
}

/// The characters that may stand for the index state.
pub open spec fn is_index_state(c: char) -> bool {
    c == 'M' || c == 'A' || c == 'D' || c == 'R' || c == 'U' || c == '?' || c == ' '
}

/// The characters that may stand for the tree state.
pub open spec fn is_tree_state(c: char) -> bool {
    c == 'M' || c == 'A' || c == 'D' || c == 'U' || c == ' '
}

impl StatusView {
    /// Unmerged on either axis.
    pub open spec fn is_unmerged(self) -> bool {
        self.index_state == 'U' || self.tree_state == 'U'
    }

    /// The path to stage and to display: the destination of a rename, else
    /// the reported path.
    pub open spec fn file(self) -> Seq<char> {
        match self.to_path {
            Some(to) => to,
            None => self.from_path,
        }
    }

    /// Both states are out of their alphabets, and a destination path is
    /// present exactly for a rename.
    pub open spec fn wf(self) -> bool {
        &&& is_index_state(self.index_state)
        &&& is_tree_state(self.tree_state)
        &&& self.to_path is Some <==> self.index_state == 'R'
    }
}

impl View for Status {
    type V = StatusView;

    open spec fn view(&self) -> StatusView {
        StatusView {
            index_state: self.index_state,
            tree_state: self.tree_state,
            from_path: self.from_path@,
            to_path: match self.to_path {
                Some(to) => Some(to@),
                None => None,
            },
        }
    }
}

/// The values of a sequence of records, in order.
pub open spec fn views(entries: Seq<Status>) -> Seq<StatusView> {
    entries.map_values(|e: Status| e@)
}

/// The records that a commit speaks of: those that are not unmerged, in
/// their order.
pub open spec fn committable(entries: Seq<StatusView>) -> Seq<StatusView> {
    entries.filter(|e: StatusView| !e.is_unmerged())
}

/// One more record looked at: it is kept unless it is unmerged.
pub proof fn lemma_committable_step(entries: Seq<StatusView>, k: int)
    requires
        0 <= k < entries.len(),
    ensures
        committable(entries.take(k + 1)) == if entries[k].is_unmerged() {
            committable(entries.take(k))
        } else {
            committable(entries.take(k)).push(entries[k])
        },
{
    reveal(Seq::filter);
    assert(entries.take(k + 1).drop_last() =~= entries.take(k));
}

/// No record that a commit speaks of is unmerged.
pub proof fn lemma_committable_holds_no_unmerged(entries: Seq<StatusView>)
    ensures
        forall|i: int|
            0 <= i < committable(entries).len() ==> !(#[trigger] committable(
                entries,
            )[i]).is_unmerged(),
{
    let kept = |e: StatusView| !e.is_unmerged();
    assert forall|i: int| 0 <= i < committable(entries).len() implies !(#[trigger] committable(
        entries,
    )[i]).is_unmerged() by {
        entries.lemma_filter_pred(kept, i);
    }
}

/// The records of `status` that are not unmerged, in their order.
pub fn without_unmerged(status: &Vec<Status>) -> (r: Vec<Status>)
    ensures
        views(r@) == committable(views(status@)),
{
    let mut kept: Vec<Status> = Vec::new();
    let mut i: usize = 0;
    proof {
        reveal(Seq::filter);
        assert(views(status@).take(0) =~= Seq::empty());
        assert(views(kept@) =~= Seq::empty());
    }
    while i < status.len()
        invariant
            i <= status.len(),
            views(kept@) == committable(views(status@).take(i as int)),
        decreases status.len() - i,
    {
        proof {
            lemma_committable_step(views(status@), i as int);
        }
        if !status[i].is_unmerged() {
            let ghost before = views(kept@);
            kept.push(status[i].clone());
            assert(views(kept@) =~= before.push(status@[i as int]@));
        }
        i += 1;
    }
    assert(views(status@).take(i as int) =~= views(status@));
    kept
}

impl Status {
    /// A record with no state and no paths, for the field parsers to fill.
    pub fn blank() -> (r: Status)
        ensures
            r@ == (StatusView {
                index_state: '\0',
                tree_state: '\0',
                from_path: Seq::empty(),
                to_path: None,
            }),
    {
        Status { index_state: '\0', tree_state: '\0', from_path: String::new(), to_path: None }
    }

    /// Whether the record is left in conflict by a merge or rebase.
    pub fn is_unmerged(&self) -> (r: bool)
        ensures
            r == (self.index_state == 'U' || self.tree_state == 'U'),
            r == self@.is_unmerged(),
    {
        self.index_state == 'U' || self.tree_state == 'U'
    }

    /// The effective path of the record.
    pub fn file(&self) -> (r: String)
        ensures
            r@ == self@.file(),
            self.to_path is Some ==> r@ == self.to_path->0@,
            self.to_path is None ==> r@ == self.from_path@,
    {
        match &self.to_path {
            Some(to) => to.clone(),
            None => self.from_path.clone(),
        }
    }
}

impl Clone for Status {
    fn clone(&self) -> (r: Status)
        ensures
            r@ == self@,
    {
        Status {
            index_state: self.index_state,
            tree_state: self.tree_state,
            from_path: self.from_path.clone(),
            to_path: match &self.to_path {
                Some(to) => Some(to.clone()),
                None => None,
            },
        }
    }
}

/// Why a sync stage failed.
#[derive(Debug)]
pub enum GifsyError {
    /// The path is no directory or holds no repository.
    NoRepoitory,
    /// A command could not be started, or its pipe failed.
    IoError(String),
    /// The status output is no porcelain stream.
    ParserError(String),
    /// git ran and failed: its exit code, and what it printed.
    CmdFail(i32, String),
}

/// Mathematical value of a [`GifsyError`].
pub enum GifsyErrorView {
    NoRepoitory,
    IoError(Seq<char>),
    ParserError(Seq<char>),
    CmdFail(i32, Seq<char>),
}

impl View for GifsyError {
    type V = GifsyErrorView;

    open spec fn view(&self) -> GifsyErrorView {
        match self {
            GifsyError::NoRepoitory => GifsyErrorView::NoRepoitory,
            GifsyError::IoError(text) => GifsyErrorView::IoError(text@),
            GifsyError::ParserError(text) => GifsyErrorView::ParserError(text@),
            GifsyError::CmdFail(code, text) => GifsyErrorView::CmdFail(*code, text@),
        }
    }
}

impl GifsyErrorView {
    /// The failure in words.
    pub open spec fn description(self) -> Seq<char> {
        match self {
            GifsyErrorView::CmdFail(code, out) => "git command failed "@ + out + " ("@ + decimal(
                code as int,
            ) + ")"@,
            GifsyErrorView::NoRepoitory => "the path is not a git repository"@,
            GifsyErrorView::IoError(cause) => "io error "@ + cause,
            GifsyErrorView::ParserError(_) => "parser error"@,
        }
    }
}

impl GifsyError {
    /// The failure in words.
    pub fn to_string(&self) -> (r: String)
        ensures
            r@ == self@.description(),
    {
        match self {
            GifsyError::CmdFail(code, out) => {
                let mut text = "git command failed ".to_owned();
                text.append(out.as_str());
                text.append(" (");
                let number = to_decimal(*code);
                text.append(number.as_str());
                text.append(")");
                text
            },
            GifsyError::NoRepoitory => "the path is not a git repository".to_owned(),
            GifsyError::IoError(cause) => {
                let mut text = "io error ".to_owned();
                text.append(cause.as_str());
                text
            },
            GifsyError::ParserError(_) => "parser error".to_owned(),
        }
    }
}

/// What a finished git command left behind.
#[derive(Debug)]
pub struct CommandOutput {
    /// The exit code; `None` when the process was ended by a signal.
    pub code: Option<i32>,
    /// Standard output as text.
    pub stdout: String,
    /// Standard error as text.
    pub stderr: String,
}

impl CommandOutput {
    /// Exit code zero.
    pub open spec fn succeeded(&self) -> bool {
        self.code == Some(0i32)
    }

    /// The exit code, or `fallback` where the process left none.
    pub open spec fn code_or(&self, fallback: i32) -> i32 {
        match self.code {
            Some(code) => code,
            None => fallback,
        }
    }

    /// `prefix`, then both captured streams.
    pub open spec fn report(&self, prefix: Seq<char>) -> Seq<char> {
        prefix + self.stdout@ + " err: "@ + self.stderr@
    }

    /// How a command that hands out no data is judged: success on exit code
    /// zero; on any other outcome the failure with the exit code (or
    /// `fallback`) and `prefix` before both captured streams.
    pub open spec fn judged(&self, fallback: i32, prefix: Seq<char>) -> Result<(), GifsyErrorView> {
        if self.succeeded() {
            Ok(())
        } else {
            Err(GifsyErrorView::CmdFail(self.code_or(fallback), self.report(prefix)))
        }
    }

    /// How the status command is judged: on exit code zero by the records
    /// of its output, on any other outcome as the failure with the exit
    /// code and what it wrote to standard error.
    pub open spec fn status(&self) -> Result<Seq<StatusView>, GifsyErrorView> {
        if self.succeeded() {
            match spec_parse(self.stdout@) {
                Some(entries) => Ok(entries),
                None => Err(GifsyErrorView::ParserError(Seq::empty())),
            }
        } else {
            Err(GifsyErrorView::CmdFail(self.code_or(-6i32), self.stderr@))
        }
    }

    /// Whether the command ended with exit code zero.
    #[verifier::when_used_as_spec(succeeded)]
    pub fn success(&self) -> (r: bool)
        ensures
            r == self.succeeded(),
    {
        match self.code {
            Some(code) => code == 0,
            None => false,
        }
    }

    fn judge(&self, fallback: i32, prefix: &str) -> (r: Result<(), GifsyError>)
        ensures
            match r {
                Ok(_) => self.judged(fallback, prefix@) is Ok,
                Err(e) => self.judged(fallback, prefix@) == Err::<(), GifsyErrorView>(e@),
            },
    {
        match self.code {
            Some(0) => Ok(()),
            code => {
                let mut text = prefix.to_owned();
                text.append(self.stdout.as_str());
                text.append(" err: ");
                text.append(self.stderr.as_str());
                let code = match code {
                    Some(c) => c,
                    None => fallback,
                };
                Err(GifsyError::CmdFail(code, text))
            },
        }
    }
}

/// One run of git: the directory to run it in, its arguments in order, and
/// what to write to its standard input.
#[derive(Debug)]
pub struct Invocation {
    pub dir: String,
    pub args: Vec<String>,
    pub stdin: Option<String>,
}

/// Mathematical value of an [`Invocation`].
pub struct InvocationView {
    pub dir: Seq<char>,
    pub args: Seq<Seq<char>>,
    pub stdin: Option<Seq<char>>,
}

impl View for Invocation {
    type V = InvocationView;

    open spec fn view(&self) -> InvocationView {
        InvocationView {
            dir: self.dir@,
            args: self.args@.map_values(|a: String| a@),
            stdin: match self.stdin {
                Some(text) => Some(text@),
                None => None,
            },
        }
    }
}

/// A working tree and the name under which this host commits to it.
pub struct Repository {
    path: String,
    name: String,
}

impl Repository {
    /// Root of the working tree.
    pub closed spec fn spec_path(&self) -> Seq<char> {
        self.path@
    }

    /// The label of this host in commit messages.
    pub closed spec fn spec_name(&self) -> Seq<char> {
        self.name@
    }

    /// The repository at `path`, given what the file system says of that
    /// path: whether it is a directory, and whether it holds git's metadata.
    /// The name is taken as it is.
    pub fn from(path: &str, name: &str, is_dir: bool, has_metadata: bool) -> (r: Result<
        Repository,
        GifsyError,
    >)
        ensures
            r is Ok <==> is_dir && has_metadata,
            match r {
                Ok(repo) => repo.spec_path() == path@ && repo.spec_name() == name@,
                Err(e) => e@ == GifsyErrorView::NoRepoitory,
            },
    {
        if is_dir && has_metadata {
            Ok(Repository { path: path.to_owned(), name: name.to_owned() })
        } else {
            Err(GifsyError::NoRepoitory)
        }
    }

    /// The label of this host in commit messages.
    pub fn name(&self) -> (r: String)
        ensures
            r@ == self.spec_name(),
    {
        self.name.clone()
    }

    /// Root of the working tree.
    pub fn path(&self) -> (r: String)
        ensures
            r@ == self.spec_path(),
    {
        self.path.clone()
    }

    /// A run of git in the working tree.
    fn invoke(&self, args: Vec<String>, stdin: Option<String>) -> (r: Invocation)
        ensures
            r.dir@ == self.spec_path(),
            r.args == args,
            r.stdin == stdin,
    {
        Invocation { dir: self.path.clone(), args, stdin }
    }

    /// `git status --porcelain -z`
    pub fn status_command(&self) -> (r: Invocation)
        ensures
            r@ == (InvocationView {
                dir: self.spec_path(),
                args: seq!["status"@, "--porcelain"@, "-z"@],
                stdin: None,
            }),
    {
        let mut args: Vec<String> = Vec::new();
        args.push("status".to_owned());
        args.push("--porcelain".to_owned());
        args.push("-z".to_owned());
        let r = self.invoke(args, None);
        assert(r@.args =~= seq!["status"@, "--porcelain"@, "-z"@]);
        r
    }

    /// `git add <path>`
    pub fn add_command(&self, path: &str) -> (r: Invocation)
        ensures
            r@ == (InvocationView {
                dir: self.spec_path(),
                args: seq!["add"@, path@],
                stdin: None,
            }),
    {
        let mut args: Vec<String> = Vec::new();
        args.push("add".to_owned());
        args.push(path.to_owned());
        let r = self.invoke(args, None);
        assert(r@.args =~= seq!["add"@, path@]);
        r
    }

    /// `git commit --file -`, with `message` on standard input.
    pub fn commit_command(&self, message: String) -> (r: Invocation)
        ensures
            r@ == (InvocationView {
                dir: self.spec_path(),
                args: seq!["commit"@, "--file"@, "-"@],
                stdin: Some(message@),
            }),
    {
        let mut args: Vec<String> = Vec::new();
        args.push("commit".to_owned());
        args.push("--file".to_owned());
        args.push("-".to_owned());
        let r = self.invoke(args, Some(message));
        assert(r@.args =~= seq!["commit"@, "--file"@, "-"@]);
        r
    }

    /// `git pull origin --rebase --autostash`
    pub fn pull_command(&self) -> (r: Invocation)
        ensures
            r@ == (InvocationView {
                dir: self.spec_path(),
                args: seq!["pull"@, "origin"@, "--rebase"@, "--autostash"@],
                stdin: None,
            }),
    {
        let mut args: Vec<String> = Vec::new();
        args.push("pull".to_owned());
        args.push("origin".to_owned());
        args.push("--rebase".to_owned());
        args.push("--autostash".to_owned());
        let r = self.invoke(args, None);
        assert(r@.args =~= seq!["pull"@, "origin"@, "--rebase"@, "--autostash"@]);
        r
    }

    /// `git push origin`
    pub fn push_command(&self) -> (r: Invocation)
        ensures
            r@ == (InvocationView {
                dir: self.spec_path(),
                args: seq!["push"@, "origin"@],
                stdin: None,
            }),
    {
        let mut args: Vec<String> = Vec::new();
        args.push("push".to_owned());
        args.push("origin".to_owned());
        let r = self.invoke(args, None);
        assert(r@.args =~= seq!["push"@, "origin"@]);
        r
    }

    /// `git submodule init`
    pub fn submodules_init_command(&self) -> (r: Invocation)
        ensures
            r@ == (InvocationView {
                dir: self.spec_path(),
                args: seq!["submodule"@, "init"@],
                stdin: None,
            }),
    {
        let mut args: Vec<String> = Vec::new();
        args.push("submodule".to_owned());
        args.push("init".to_owned());
        let r = self.invoke(args, None);
        assert(r@.args =~= seq!["submodule"@, "init"@]);
        r
    }

    /// `git submodule update`
    pub fn submodules_update_command(&self) -> (r: Invocation)
        ensures
            r@ == (InvocationView {
                dir: self.spec_path(),
                args: seq!["submodule"@, "update"@],
                stdin: None,
            }),
    {
        let mut args: Vec<String> = Vec::new();
        args.push("submodule".to_owned());
        args.push("update".to_owned());
        let r = self.invoke(args, None);
        assert(r@.args =~= seq!["submodule"@, "update"@]);
        r
    }

    /// Judges the status command: on exit code zero its output is decoded,
    /// all of it or none; any other outcome is the command's failure, with
    /// what it wrote to standard error.
    pub fn status(&self, output: &CommandOutput) -> (r: Result<Vec<Status>, GifsyError>)
        ensures
            match r {
                Ok(entries) => {
                    &&& output.status() == Ok::<Seq<StatusView>, GifsyErrorView>(views(entries@))
                    &&& forall|i: int|
                        0 <= i < entries@.len() ==> encodable((#[trigger] entries@[i])@)
                },
                Err(e) => output.status() == Err::<Seq<StatusView>, GifsyErrorView>(e@),
            },
    {
        match output.code {
            Some(0) => match parse(output.stdout.as_str()) {
                Ok(entries) => Ok(entries),
                Err(_) => Err(GifsyError::ParserError(String::new())),
            },
            Some(code) => Err(GifsyError::CmdFail(code, output.stderr.clone())),
            None => Err(GifsyError::CmdFail(-6, output.stderr.clone())),
        }
    }

    /// Judges the commit command. After a commit that succeeded, the notice
    /// that lists the committed paths is due.
    pub fn commit(&self, status: &Vec<Status>, output: &CommandOutput) -> (r: Result<
        Option<Notice>,
        GifsyError,
    >)
        ensures
            match r {
                Ok(notice) => {
                    &&& output.judged(-7i32, "couldn't call git commit: "@) is Ok
                    &&& notice is Some <==> status@.len() > 0
                    &&& notice is Some ==> notice->0@ == changed_files_notice(views(status@))
                },
                Err(e) => output.judged(-7i32, "couldn't call git commit: "@) == Err::<
                    (),
                    GifsyErrorView,
                >(e@),
            },
    {
        match output.judge(-7, "couldn't call git commit: ") {
            Ok(()) => Ok(commit_notice(status)),
            Err(e) => Err(e),
        }
    }

    /// Judges the pull command.
    pub fn pull(&self, output: &CommandOutput) -> (r: Result<(), GifsyError>)
        ensures
            match r {
                Ok(_) => output.judged(-1i32, "couldn't call git pull: "@) is Ok,
                Err(e) => output.judged(-1i32, "couldn't call git pull: "@) == Err::<(), GifsyErrorView>(e@),
            },
    {
        output.judge(-1, "couldn't call git pull: ")
    }

    /// Judges the push command.
    pub fn push(&self, output: &CommandOutput) -> (r: Result<(), GifsyError>)
        ensures
            match r {
                Ok(_) => output.judged(-2i32, "couldn't call git push: "@) is Ok,
                Err(e) => output.judged(-2i32, "couldn't call git push: "@) == Err::<(), GifsyErrorView>(e@),
            },
    {
        output.judge(-2, "couldn't call git push: ")
    }

    /// Judges the command that initialises the submodules.
    pub fn submodules_init(&self, output: &CommandOutput) -> (r: Result<(), GifsyError>)
        ensures
            match r {
                Ok(_) => output.judged(-3i32, "couldn't call init submodules: "@) is Ok,
                Err(e) => output.judged(-3i32, "couldn't call init submodules: "@) == Err::<(), GifsyErrorView>(e@),
            },
    {
        output.judge(-3, "couldn't call init submodules: ")
    }

    /// Judges the command that updates the submodules.
    pub fn submodules_update(&self, output: &CommandOutput) -> (r: Result<(), GifsyError>)
        ensures
            match r {
                Ok(_) => output.judged(-4i32, "couldn't call update submodules: "@) is Ok,
                Err(e) => output.judged(-4i32, "couldn't call update submodules: "@) == Err::<(), GifsyErrorView>(e@),
            },
    {
        output.judge(-4, "couldn't call update submodules: ")
    }
}

} // verus!
