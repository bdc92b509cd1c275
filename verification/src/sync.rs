//! The order of a sync run.
//!
//! ```text
//! status -> [clean]   -> pull -> submodule init -> submodule update -> push
//!        -> [changes] -> add .. add -> status -> commit -> pull -> ..
//! ```
//!
//! Unmerged records are left for a person: they are not staged, and the
//! commit does not speak of them. The commit message is stamped with the
//! time of the system clock; a clock that stands where the time cannot be
//! written down ends the run like a failed command.
//!
//! The run is a state machine. Each state but the two last ones waits for
//! one git command; the caller runs it and hands back what became of it,
//! and is told the next command and the notices that are due: one for each
//! unmerged record that staging leaves alone, and one after the commit.
//! Whether a notice is delivered is for the notifier to say. The first
//! command that fails ends the run: no state is left again once `Failed`
//! is reached, and nothing done before is undone.

use vstd::prelude::*;
use crate::clock::{is_stamp, read_clock, stamp_of};
use crate::git::{committable, lemma_committable_holds_no_unmerged, without_unmerged, CommandOutput, GifsyError, GifsyErrorView, Invocation, InvocationView, Repository, Status, StatusView, views};
use crate::git::message::{changed_files_notice, commit_message_on, stamped_message, unmerged_file_notice};
use crate::git::staging::{AddStep, Pending, Staging, stageable};
use crate::notify::{Notice, NoticeView};

verus! {

/// Where a sync run stands: the command it waits for, or how it ended.
pub enum SyncState {
    /// Waits for the status of the working tree.
    QueryStatus,
    /// Waits for the `git add` of one record.
    Add(Pending),
    /// Waits for the status after staging.
    Requery,
    /// Waits for the commit of these records.
    Commit(Vec<Status>),
    /// Waits for the pull.
    Pull,
    /// Waits for the initialisation of the submodules.
    SubmodulesInit,
    /// Waits for the update of the submodules.
    SubmodulesUpdate,
    /// Waits for the push.
    Push,
    /// Every stage succeeded.
    Done,
    /// A stage failed; the later ones were not begun.
    Failed(GifsyError),
}

/// What became of the command that the run waited for.
pub enum Event {
    /// It ran and ended.
    Exited(CommandOutput),
    /// It could not be started, or its pipe failed; the text says why.
    Broken(String),
}

/// One move of the run: the state it reached, the command to run there,
/// and the notices that are due before that.
pub struct Step {
    pub state: SyncState,
    pub command: Option<Invocation>,
    pub notices: Vec<Notice>,
}

/// The values of a sequence of notices, in order.
pub open spec fn notice_views(notices: Seq<Notice>) -> Seq<NoticeView> {
    notices.map_values(|n: Notice| n@)
}

/// The run of git in the working tree with the given arguments and
/// nothing on standard input.
pub open spec fn command_line(repo: &Repository, args: Seq<Seq<char>>) -> InvocationView {
    InvocationView { dir: repo.spec_path(), args, stdin: None }
}

/// The first record at or behind `from` that is to be staged; the number
/// of records if there is none.
pub open spec fn next_stageable(entries: Seq<StatusView>, from: int) -> int
    decreases entries.len() - from,
{
    if from >= entries.len() {
        entries.len() as int
    } else if stageable(entries[from]) {
        from
    } else {
        next_stageable(entries, from + 1)
    }
}

/// The notices for the unmerged records from `from` up to `to`, in order.
pub open spec fn warnings(entries: Seq<StatusView>, from: int, to: int) -> Seq<NoticeView>
    decreases to - from,
{
    if to <= from {
        Seq::empty()
    } else if entries[to - 1].is_unmerged() {
        warnings(entries, from, to - 1).push(unmerged_file_notice(entries[to - 1]))
    } else {
        warnings(entries, from, to - 1)
    }
}

impl Step {
    /// The run has ended with `error`: no command, no notice.
    pub open spec fn halted(self, error: GifsyErrorView) -> bool {
        &&& self.state matches SyncState::Failed(e) && e@ == error
        &&& self.command is None
        &&& self.notices@.len() == 0
    }

    /// The given command is next, with no notice before it.
    pub open spec fn runs(self, command: InvocationView) -> bool {
        &&& self.command matches Some(c) && c@ == command
        &&& self.notices@.len() == 0
    }

    /// Staging `entries` goes on behind the first `from` records: the
    /// unmerged records up to the next one to stage are announced, and
    /// that record's `git add` is next; with no record left to stage, the
    /// status is asked for again.
    pub open spec fn stages(self, repo: &Repository, entries: Seq<StatusView>, from: int) -> bool {
        let k = next_stageable(entries, from);
        &&& notice_views(self.notices@) == warnings(entries, from, k)
        &&& self.command matches Some(c) && c@ == if k < entries.len() {
            command_line(repo, seq!["add"@, entries[k].file()])
        } else {
            command_line(repo, seq!["status"@, "--porcelain"@, "-z"@])
        }
        &&& if k < entries.len() {
            self.state matches SyncState::Add(pending) && pending.staging().entries() == entries
                && pending.staging().cursor() == k
        } else {
            self.state is Requery
        }
    }

    /// The commit of `entries` is next, with the message for the clock
    /// reading `clock` on standard input, its header stamped with a text
    /// that is not empty; or the run has ended, where the reading cannot
    /// be written down.
    pub open spec fn commits(
        self,
        repo: &Repository,
        entries: Seq<StatusView>,
        clock: Option<u64>,
    ) -> bool {
        match stamped_message(entries, repo.spec_name(), clock) {
            Ok(message) => {
                &&& is_stamp(stamp_of(clock)->0)
                &&& self.state matches SyncState::Commit(es) && views(es@) == entries
                &&& self.notices@.len() == 0
                &&& self.command matches Some(c) && c@ == (InvocationView {
                    dir: repo.spec_path(),
                    args: seq!["commit"@, "--file"@, "-"@],
                    stdin: Some(message),
                })
            },
            Err(e) => self.halted(e),
        }
    }

    /// The commit of `entries` is next, or the run has ended, by what some
    /// reading of the clock gives.
    pub open spec fn commits_at_some_time(self, repo: &Repository, entries: Seq<StatusView>) -> bool {
        exists|clock: Option<u64>| #[trigger] self.commits(repo, entries, clock)
    }
}

/// What each move of the run comes to.
pub open spec fn transition(repo: &Repository, state: SyncState, event: Event, r: Step) -> bool {
    match (state, event) {
        (SyncState::Done, _) => r.state is Done && r.command is None && r.notices@.len() == 0,
        (SyncState::Failed(e), _) => r.halted(e@),
        (_, Event::Broken(text)) => r.halted(GifsyErrorView::IoError(text@)),
        (SyncState::QueryStatus, Event::Exited(output)) => match output.status() {
            Ok(entries) => if entries.len() == 0 {
                r.state is Pull && r.runs(
                    command_line(repo, seq!["pull"@, "origin"@, "--rebase"@, "--autostash"@]),
                )
            } else {
                r.stages(repo, entries, 0)
            },
            Err(e) => r.halted(e),
        },
        (SyncState::Add(pending), Event::Exited(output)) => if output.succeeded() {
            r.stages(repo, pending.staging().entries(), pending.staging().cursor() as int + 1)
        } else {
            r.halted(
                GifsyErrorView::CmdFail(
                    output.code_or(-5i32),
                    "can't add "@ + pending.entry().file() + " ("@ + output.stderr@ + ")"@,
                ),
            )
        },
        (SyncState::Requery, Event::Exited(output)) => match output.status() {
            Ok(entries) => r.commits_at_some_time(repo, committable(entries)),
            Err(e) => r.halted(e),
        },
        (SyncState::Commit(entries), Event::Exited(output)) => match output.judged(
            -7i32,
            "couldn't call git commit: "@,
        ) {
            Ok(_) => {
                &&& r.state is Pull
                &&& r.command matches Some(c) && c@ == command_line(repo,
                    seq!["pull"@, "origin"@, "--rebase"@, "--autostash"@],
                )
                &&& notice_views(r.notices@) == if entries@.len() > 0 {
                    seq![changed_files_notice(views(entries@))]
                } else {
                    Seq::empty()
                }
            },
            Err(e) => r.halted(e),
        },
        (SyncState::Pull, Event::Exited(output)) => match output.judged(
            -1i32,
            "couldn't call git pull: "@,
        ) {
            Ok(_) => r.state is SubmodulesInit && r.runs(command_line(repo, seq!["submodule"@, "init"@])),
            Err(e) => r.halted(e),
        },
        (SyncState::SubmodulesInit, Event::Exited(output)) => match output.judged(
            -3i32,
            "couldn't call init submodules: "@,
        ) {
            Ok(_) => r.state is SubmodulesUpdate && r.runs(
                command_line(repo, seq!["submodule"@, "update"@]),
            ),
            Err(e) => r.halted(e),
        },
        (SyncState::SubmodulesUpdate, Event::Exited(output)) => match output.judged(
            -4i32,
            "couldn't call update submodules: "@,
        ) {
            Ok(_) => r.state is Push && r.runs(command_line(repo, seq!["push"@, "origin"@])),
            Err(e) => r.halted(e),
        },
        (SyncState::Push, Event::Exited(output)) => match output.judged(
            -2i32,
            "couldn't call git push: "@,
        ) {
            Ok(_) => r.state is Done && r.command is None && r.notices@.len() == 0,
            Err(e) => r.halted(e),
        },
    }
}

/// Records that are not staged do not move the next record to stage.
proof fn lemma_next_stageable_skip(entries: Seq<StatusView>, from: int, to: int)
    requires
        0 <= from <= to <= entries.len(),
        forall|j: int| from <= j < to ==> !stageable(#[trigger] entries[j]),
    ensures
        next_stageable(entries, from) == next_stageable(entries, to),
    decreases to - from,
{
    if from < to {
        lemma_next_stageable_skip(entries, from + 1, to);
    }
}

/// Records that are not unmerged add no notice.
proof fn lemma_warnings_skip(entries: Seq<StatusView>, from: int, mid: int, to: int)
    requires
        0 <= from <= mid <= to <= entries.len(),
        forall|j: int| mid <= j < to ==> !(#[trigger] entries[j]).is_unmerged(),
    ensures
        warnings(entries, from, to) == warnings(entries, from, mid),
    decreases to - mid,
{
    if mid < to {
        lemma_warnings_skip(entries, from, mid, to - 1);
    }
}

/// A failed run holds no command and no notice.
fn halt(error: GifsyError) -> (r: Step)
    ensures
        r.halted(error@),
{
    Step { state: SyncState::Failed(error), command: None, notices: Vec::new() }
}

/// A move to `state` with `command` next and no notice.
fn run(state: SyncState, command: Invocation) -> (r: Step)
    ensures
        r.state == state,
        r.runs(command@),
{
    Step { state, command: Some(command), notices: Vec::new() }
}

/// Goes on with a staging up to its next command.
fn stage(repo: &Repository, start: Staging) -> (r: Step)
    ensures
        r.stages(repo, start.entries(), start.cursor() as int),
{
    let ghost entries = start.entries();
    let ghost from = start.cursor() as int;
    let mut notices: Vec<Notice> = Vec::new();
    let mut staging = start;
    assert(notice_views(notices@) =~= Seq::empty());
    loop
        invariant
            entries == start.entries(),
            from == start.cursor(),
            staging.entries() == entries,
            0 <= from <= staging.cursor(),
            next_stageable(entries, from) == next_stageable(entries, staging.cursor() as int),
            notice_views(notices@) == warnings(entries, from, staging.cursor() as int),
        decreases entries.len() - staging.cursor(),
    {
        let ghost cursor = staging.cursor() as int;
        match staging.next(repo) {
            AddStep::Warn(notice, rest) => {
                proof {
                    let k = rest.cursor() - 1;
                    lemma_next_stageable_skip(entries, cursor, k + 1);
                    lemma_warnings_skip(entries, from, cursor, k);
                }
                let ghost before = notice_views(notices@);
                notices.push(notice);
                assert(notice_views(notices@) =~= before.push(notice@));
                staging = rest;
            },
            AddStep::Run(command, pending) => {
                proof {
                    let k = pending.staging().cursor() as int;
                    lemma_next_stageable_skip(entries, cursor, k);
                    lemma_warnings_skip(entries, from, cursor, k);
                }
                return Step { state: SyncState::Add(pending), command: Some(command), notices };
            },
            AddStep::Done(_) => {
                proof {
                    let k = entries.len() as int;
                    lemma_next_stageable_skip(entries, cursor, k);
                    lemma_warnings_skip(entries, from, cursor, k);
                }
                return Step {
                    state: SyncState::Requery,
                    command: Some(repo.status_command()),
                    notices,
                };
            },
        }
    }
}

/// The move to the commit of `entries` at the clock reading `clock`: the
/// commit is next, with its message on standard input; a reading that
/// cannot be written down ends the run.
pub fn commit_step(repo: &Repository, entries: Vec<Status>, clock: Option<u64>) -> (r: Step)
    ensures
        r.commits(repo, views(entries@), clock),
{
    let name = repo.name();
    match commit_message_on(&entries, name.as_str(), clock) {
        Ok(message) => {
            let command = repo.commit_command(message);
            Step { state: SyncState::Commit(entries), command: Some(command), notices: Vec::new() }
        },
        Err(e) => halt(e),
    }
}

/// The first move of a run: the status of the working tree is asked for.
pub fn begin(repo: &Repository) -> (r: Step)
    ensures
        r.state is QueryStatus,
        r.runs(command_line(repo, seq!["status"@, "--porcelain"@, "-z"@])),
{
    run(SyncState::QueryStatus, repo.status_command())
}

/// Moves the run on by what became of the command it waited for.
pub fn sync(repo: &Repository, state: SyncState, event: Event) -> (r: Step)
    ensures
        transition(repo, state, event, r),
{
    match (state, event) {
        (SyncState::Done, _) => Step { state: SyncState::Done, command: None, notices: Vec::new() },
        (SyncState::Failed(e), _) => halt(e),
        (_, Event::Broken(text)) => halt(GifsyError::IoError(text)),
        (SyncState::QueryStatus, Event::Exited(output)) => match repo.status(&output) {
            Ok(entries) => if entries.len() == 0 {
                assert(views(entries@).len() == 0);
                run(SyncState::Pull, repo.pull_command())
            } else {
                assert(views(entries@).len() > 0);
                stage(repo, repo.add(entries))
            },
            Err(e) => halt(e),
        },
        (SyncState::Add(pending), Event::Exited(output)) => match pending.record(&output) {
            Ok(staging) => stage(repo, staging),
            Err(e) => halt(e),
        },
        (SyncState::Requery, Event::Exited(output)) => match repo.status(&output) {
            Ok(entries) => {
                let kept = without_unmerged(&entries);
                let clock = read_clock();
                let step = commit_step(repo, kept, clock);
                assert(step.commits(repo, committable(views(entries@)), clock));
                assert(step.commits_at_some_time(repo, committable(views(entries@))));
                step
            },
            Err(e) => halt(e),
        },
        (SyncState::Commit(entries), Event::Exited(output)) => match repo.commit(
            &entries,
            &output,
        ) {
            Ok(notice) => {
                let mut notices: Vec<Notice> = Vec::new();
                assert(notice_views(notices@) =~= Seq::empty());
                match notice {
                    Some(n) => {
                        notices.push(n);
                        assert(notice_views(notices@) =~= seq![n@]);
                    },
                    None => {},
                }
                Step { state: SyncState::Pull, command: Some(repo.pull_command()), notices }
            },
            Err(e) => halt(e),
        },
        (SyncState::Pull, Event::Exited(output)) => match repo.pull(&output) {
            Ok(_) => run(SyncState::SubmodulesInit, repo.submodules_init_command()),
            Err(e) => halt(e),
        },
        (SyncState::SubmodulesInit, Event::Exited(output)) => match repo.submodules_init(&output) {
            Ok(_) => run(SyncState::SubmodulesUpdate, repo.submodules_update_command()),
            Err(e) => halt(e),
        },
        (SyncState::SubmodulesUpdate, Event::Exited(output)) => match repo.submodules_update(
            &output,
        ) {
            Ok(_) => run(SyncState::Push, repo.push_command()),
            Err(e) => halt(e),
        },
        (SyncState::Push, Event::Exited(output)) => match repo.push(&output) {
            Ok(_) => Step { state: SyncState::Done, command: None, notices: Vec::new() },
            Err(e) => halt(e),
        },
    }
}

/// A run that finds the working tree clean stages nothing and commits
/// nothing: its next command is the pull.
pub proof fn lemma_clean_tree_pulls(
    repo: &Repository,
    output: CommandOutput,
    r: Step,
)
    requires
        transition(repo, SyncState::QueryStatus, Event::Exited(output), r),
        output.status() == Ok::<Seq<StatusView>, GifsyErrorView>(Seq::empty()),
    ensures
        r.state is Pull,
        r.command matches Some(c) && c@ == command_line(repo,
            seq!["pull"@, "origin"@, "--rebase"@, "--autostash"@],
        ),
        r.notices@.len() == 0,
{
}

/// From the pull on, while every command succeeds, the run initialises the
/// submodules, updates them, pushes, and is done.
pub proof fn lemma_pull_to_done(
    repo: &Repository,
    pulled: CommandOutput,
    initialised: CommandOutput,
    updated: CommandOutput,
    pushed: CommandOutput,
    first: Step,
    second: Step,
    third: Step,
    last: Step,
)
    requires
        pulled.succeeded() && initialised.succeeded() && updated.succeeded() && pushed.succeeded(),
        transition(repo, SyncState::Pull, Event::Exited(pulled), first),
        transition(repo, first.state, Event::Exited(initialised), second),
        transition(repo, second.state, Event::Exited(updated), third),
        transition(repo, third.state, Event::Exited(pushed), last),
    ensures
        first.runs(command_line(repo, seq!["submodule"@, "init"@])),
        second.runs(command_line(repo, seq!["submodule"@, "update"@])),
        third.runs(command_line(repo, seq!["push"@, "origin"@])),
        last.state is Done,
        last.command is None,
{
}

/// A command that ends with another exit code than zero, in whatever state
/// the run waits for it, ends the run with that command's failure: no
/// command follows, and no notice.
pub proof fn lemma_failure_halts(
    repo: &Repository,
    state: SyncState,
    output: CommandOutput,
    r: Step,
)
    requires
        !(state is Done) && !(state is Failed),
        !output.succeeded(),
        transition(repo, state, Event::Exited(output), r),
    ensures
        r.state matches SyncState::Failed(e) && e@ is CmdFail,
        r.command is None,
        r.notices@.len() == 0,
{
}

/// A run that has ended stays as it is, whatever is handed to it, and asks
/// for no command.
pub proof fn lemma_ended_stays(
    repo: &Repository,
    state: SyncState,
    event: Event,
    r: Step,
)
    requires
        state is Done || state is Failed,
        transition(repo, state, event, r),
    ensures
        state is Done ==> r.state is Done,
        state matches SyncState::Failed(e) ==> r.state matches SyncState::Failed(f) && f@ == e@,
        r.command is None,
        r.notices@.len() == 0,
{
}

/// No unmerged record reaches the commit: whatever the second status
/// reports, the records that the run hands to the commit hold none.
pub proof fn lemma_commit_holds_no_unmerged(
    repo: &Repository,
    output: CommandOutput,
    r: Step,
)
    requires
        transition(repo, SyncState::Requery, Event::Exited(output), r),
    ensures
        r.state matches SyncState::Commit(entries) ==> forall|i: int|
            0 <= i < entries@.len() ==> !(#[trigger] entries@[i])@.is_unmerged(),
{
    if let SyncState::Commit(entries) = r.state {
        let reported = output.status()->Ok_0;
        lemma_committable_holds_no_unmerged(reported);
        assert forall|i: int| 0 <= i < entries@.len() implies !(#[trigger] entries@[i])@.is_unmerged() by {
            assert(views(entries@)[i] == entries@[i]@);
        }
    }
}

} // verus!
