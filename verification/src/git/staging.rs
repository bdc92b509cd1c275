//! Staging a status result, one `git add` at a time.
//!
//! Records are taken in their order. An unmerged record is left for a
//! person and announced by a notice; a record deleted from the index has
//! no content to stage and is passed over; every other record has its
//! effective path staged. The first command that fails ends the staging:
//! what was staged before it stays staged.

use vstd::prelude::*;
use super::{CommandOutput, GifsyError, GifsyErrorView, Invocation, InvocationView, Repository, Status, StatusView, views};
use super::message::{unmerged_file_notice, unmerged_notice};
use crate::notify::Notice;

verus! {

/// Whether the record is staged: it is neither unmerged nor deleted from
/// the index.
pub open spec fn stageable(entry: StatusView) -> bool {
    !entry.is_unmerged() && entry.index_state != 'D'
}

/// Whether the record is passed over in silence.
pub open spec fn silent(entry: StatusView) -> bool {
    !entry.is_unmerged() && entry.index_state == 'D'
}

/// The records that staging `entries` stages, in their order.
pub open spec fn staged_of(entries: Seq<StatusView>) -> Seq<StatusView> {
    entries.filter(|e: StatusView| stageable(e))
}

/// Every record from `from` up to `to` is passed over in silence.
pub open spec fn all_silent(entries: Seq<StatusView>, from: int, to: int) -> bool {
    forall|j: int| from <= j < to ==> silent(#[trigger] entries[j])
}

/// One more record decided: it joins the staged ones if it is stageable.
pub proof fn lemma_staged_step(entries: Seq<StatusView>, k: int)
    requires
        0 <= k < entries.len(),
    ensures
        staged_of(entries.take(k + 1)) == if stageable(entries[k]) {
            staged_of(entries.take(k)).push(entries[k])
        } else {
            staged_of(entries.take(k))
        },
{
    reveal(Seq::filter);
    assert(entries.take(k + 1).drop_last() =~= entries.take(k));
}

/// The staged records are the stageable records of the status result: no
/// unmerged record and no record deleted from the index is among them, each
/// of them is a record of the status result, and every stageable record of
/// the status result is among them.
pub proof fn lemma_staged_are_the_stageable(entries: Seq<StatusView>)
    ensures
        forall|i: int|
            0 <= i < staged_of(entries).len() ==> {
                &&& !(#[trigger] staged_of(entries)[i]).is_unmerged()
                &&& staged_of(entries)[i].index_state != 'D'
                &&& entries.contains(staged_of(entries)[i])
            },
        forall|i: int|
            0 <= i < entries.len() && stageable(#[trigger] entries[i]) ==> staged_of(
                entries,
            ).contains(entries[i]),
    decreases entries.len(),
{
    reveal(Seq::filter);
    if entries.len() > 0 {
        let front = entries.drop_last();
        lemma_staged_are_the_stageable(front);
        assert forall|i: int| 0 <= i < staged_of(entries).len() implies {
            &&& !(#[trigger] staged_of(entries)[i]).is_unmerged()
            &&& staged_of(entries)[i].index_state != 'D'
            &&& entries.contains(staged_of(entries)[i])
        } by {
            if i < staged_of(front).len() {
                let e = staged_of(front)[i];
                assert(front.contains(e));
                let j = choose|j: int| 0 <= j < front.len() && front[j] == e;
                assert(entries[j] == e);
            } else {
                assert(staged_of(entries)[i] == entries.last());
                assert(entries[entries.len() - 1] == entries.last());
            }
        }
        assert forall|i: int|
            0 <= i < entries.len() && stageable(#[trigger] entries[i]) implies staged_of(
            entries,
        ).contains(entries[i]) by {
            if i < front.len() {
                assert(front[i] == entries[i]);
                assert(staged_of(front).contains(front[i]));
                let j = choose|j: int|
                    0 <= j < staged_of(front).len() && staged_of(front)[j] == front[i];
                assert(staged_of(entries)[j] == entries[i]);
            } else {
                assert(staged_of(entries)[staged_of(entries).len() - 1] == entries[i]);
            }
        }
    }
}

/// A status result with the records before the cursor decided.
pub struct Staging {
    entries: Vec<Status>,
    cursor: usize,
    staged: Vec<Status>,
}

/// A staging that waits for the outcome of the `git add` of the record at
/// its cursor.
pub struct Pending {
    staging: Staging,
}

/// What staging asks of the caller next.
pub enum AddStep {
    /// Deliver the notice for an unmerged record, then go on.
    Warn(Notice, Staging),
    /// Run the command, then record its outcome.
    Run(Invocation, Pending),
    /// Every record is decided; these were staged.
    Done(Vec<Status>),
}

impl Staging {
    #[verifier::type_invariant]
    spec fn inv(self) -> bool {
        &&& self.cursor <= self.entries.len()
        &&& views(self.staged@) == staged_of(views(self.entries@).take(self.cursor as int))
    }

    /// The status result.
    pub closed spec fn entries(self) -> Seq<StatusView> {
        views(self.entries@)
    }

    /// How many records are decided.
    pub closed spec fn cursor(self) -> nat {
        self.cursor as nat
    }

    /// The records staged so far.
    pub closed spec fn staged(self) -> Seq<StatusView> {
        views(self.staged@)
    }

    /// Passes over the records that need no command, up to the first that
    /// is unmerged or is to be staged.
    pub fn next(self, repo: &Repository) -> (r: AddStep)
        ensures
            self.cursor() <= self.entries().len(),
            self.staged() == staged_of(self.entries().take(self.cursor() as int)),
            match r {
                AddStep::Warn(notice, rest) => {
                    let k = rest.cursor() - 1;
                    &&& self.cursor() <= k < self.entries().len()
                    &&& all_silent(self.entries(), self.cursor() as int, k)
                    &&& self.entries()[k].is_unmerged()
                    &&& notice@ == unmerged_file_notice(self.entries()[k])
                    &&& rest.entries() == self.entries()
                    &&& rest.staged() == self.staged()
                },
                AddStep::Run(command, pending) => {
                    let k = pending.staging().cursor() as int;
                    &&& self.cursor() <= k < self.entries().len()
                    &&& all_silent(self.entries(), self.cursor() as int, k)
                    &&& stageable(self.entries()[k])
                    &&& command@ == (InvocationView {
                        dir: repo.spec_path(),
                        args: seq!["add"@, self.entries()[k].file()],
                        stdin: None,
                    })
                    &&& pending.staging().entries() == self.entries()
                    &&& pending.staging().staged() == self.staged()
                },
                AddStep::Done(staged) => {
                    &&& all_silent(self.entries(), self.cursor() as int, self.entries().len() as int)
                    &&& views(staged@) == staged_of(self.entries())
                },
            },
    {
        proof {
            use_type_invariant(&self);
        }
        let Staging { entries, cursor, staged } = self;
        let mut k: usize = cursor;
        while k < entries.len()
            invariant
                self.entries == entries,
                self.cursor == cursor,
                self.staged == staged,
                self.staged() == staged_of(self.entries().take(self.cursor() as int)),
                cursor <= k <= entries.len(),
                all_silent(views(entries@), cursor as int, k as int),
                views(staged@) == staged_of(views(entries@).take(k as int)),
            decreases entries.len() - k,
        {
            proof {
                lemma_staged_step(views(entries@), k as int);
            }
            if entries[k].is_unmerged() {
                let notice = unmerged_notice(&entries[k]);
                return AddStep::Warn(notice, Staging { entries, cursor: k + 1, staged });
            }
            if entries[k].index_state != 'D' {
                let file = entries[k].file();
                let command = repo.add_command(file.as_str());
                return AddStep::Run(
                    command,
                    Pending { staging: Staging { entries, cursor: k, staged } },
                );
            }
            k += 1;
        }
        assert(views(entries@).take(k as int) =~= views(entries@));
        AddStep::Done(staged)
    }
}

impl Pending {
    #[verifier::type_invariant]
    spec fn inv(self) -> bool {
        &&& self.staging.cursor < self.staging.entries.len()
        &&& stageable(self.staging.entries[self.staging.cursor as int]@)
    }

    /// The staging that waits.
    pub closed spec fn staging(self) -> Staging {
        self.staging
    }

    /// The record whose `git add` is awaited.
    pub open spec fn entry(self) -> StatusView {
        self.staging().entries()[self.staging().cursor() as int]
    }

    /// Judges the awaited `git add`. On exit code zero the record counts as
    /// staged and the staging goes on behind it; any other outcome ends the
    /// staging with the command's failure.
    pub fn record(self, output: &CommandOutput) -> (r: Result<Staging, GifsyError>)
        ensures
            self.staging().cursor() < self.staging().entries().len(),
            stageable(self.entry()),
            r is Ok <==> output.succeeded(),
            match r {
                Ok(rest) => {
                    &&& rest.entries() == self.staging().entries()
                    &&& rest.cursor() == self.staging().cursor() + 1
                    &&& rest.staged() == self.staging().staged().push(self.entry())
                },
                Err(e) => e@ == GifsyErrorView::CmdFail(
                    output.code_or(-5i32),
                    "can't add "@ + self.entry().file() + " ("@ + output.stderr@ + ")"@,
                ),
            },
    {
        proof {
            use_type_invariant(&self);
            use_type_invariant(&self.staging);
        }
        let Pending { staging } = self;
        let Staging { entries, cursor, mut staged } = staging;
        proof {
            lemma_staged_step(views(entries@), cursor as int);
        }
        match output.code {
            Some(0) => {
                let ghost before = views(staged@);
                staged.push(entries[cursor].clone());
                assert(views(staged@) =~= before.push(entries@[cursor as int]@));
                Ok(Staging { entries, cursor: cursor + 1, staged })
            },
            code => {
                let mut text = "can't add ".to_owned();
                let file = entries[cursor].file();
                text.append(file.as_str());
                text.append(" (");
                text.append(output.stderr.as_str());
                text.append(")");
                let code = match code {
                    Some(c) => c,
                    None => -5,
                };
                Err(GifsyError::CmdFail(code, text))
            },
        }
    }
}

impl Repository {
    /// Begins to stage `status`, with no record decided yet.
    pub fn add(&self, status: Vec<Status>) -> (r: Staging)
        ensures
            r.entries() == views(status@),
            r.cursor() == 0,
            r.staged() == Seq::<StatusView>::empty(),
    {
        let staged: Vec<Status> = Vec::new();
        proof {
            reveal(Seq::filter);
            assert(views(status@).take(0) =~= Seq::empty());
            assert(views(staged@) =~= Seq::empty());
        }
        Staging { entries: status, cursor: 0, staged }
    }
}

} // verus!
