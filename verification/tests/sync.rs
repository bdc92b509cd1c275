use gifsy::git::parser::parse;
use gifsy::git::staging::AddStep;
use gifsy::git::{CommandOutput, GifsyError, Invocation, Repository, Status};
use gifsy::notify::Notice;
use gifsy::sync::{begin, commit_step, sync, Event, SyncState};

fn repo() -> Repository {
    Repository::from("/work/tree", "host", true, true).unwrap()
}

fn ok(stdout: &str) -> CommandOutput {
    CommandOutput { code: Some(0), stdout: stdout.to_string(), stderr: String::new() }
}

fn failed(code: Option<i32>, stdout: &str, stderr: &str) -> CommandOutput {
    CommandOutput { code, stdout: stdout.to_string(), stderr: stderr.to_string() }
}

fn args(command: &Invocation) -> Vec<&str> {
    command.args.iter().map(|a| a.as_str()).collect()
}

/// Runs a sync against a script of command results; hands out the argument
/// lists of the commands that were run, the notices, and the last state.
fn drive(script: Vec<Event>) -> (Vec<Vec<String>>, Vec<Notice>, SyncState) {
    let repo = repo();
    let mut ran = Vec::new();
    let mut notices = Vec::new();
    let mut step = begin(&repo);
    let mut script = script.into_iter();
    loop {
        notices.append(&mut step.notices);
        let command = match step.command {
            Some(command) => command,
            None => return (ran, notices, step.state),
        };
        assert_eq!(command.dir, "/work/tree");
        ran.push(command.args.clone());
        let event = match script.next() {
            Some(event) => event,
            None => return (ran, notices, step.state),
        };
        step = sync(&repo, step.state, event);
    }
}

fn lists(ran: &Vec<Vec<String>>) -> Vec<String> {
    ran.iter().map(|a| a.join(" ")).collect()
}

#[test]
fn repository_needs_a_directory_with_metadata() {
    assert!(matches!(Repository::from("/x", "n", false, false), Err(GifsyError::NoRepoitory)));
    assert!(matches!(Repository::from("/x", "n", true, false), Err(GifsyError::NoRepoitory)));
    assert!(matches!(Repository::from("/x", "n", false, true), Err(GifsyError::NoRepoitory)));
    let repo = Repository::from("/x", "n", true, true).unwrap();
    assert_eq!(repo.name(), "n");
    assert_eq!(repo.path(), "/x");
}

#[test]
fn command_lines() {
    let repo = repo();
    assert_eq!(args(&repo.status_command()), vec!["status", "--porcelain", "-z"]);
    assert_eq!(args(&repo.add_command("a b")), vec!["add", "a b"]);
    let commit = repo.commit_command("message".to_string());
    assert_eq!(args(&commit), vec!["commit", "--file", "-"]);
    assert_eq!(commit.stdin, Some("message".to_string()));
    assert_eq!(args(&repo.pull_command()), vec!["pull", "origin", "--rebase", "--autostash"]);
    assert_eq!(args(&repo.push_command()), vec!["push", "origin"]);
    assert_eq!(args(&repo.submodules_init_command()), vec!["submodule", "init"]);
    assert_eq!(args(&repo.submodules_update_command()), vec!["submodule", "update"]);
    assert_eq!(repo.pull_command().dir, "/work/tree");
    assert_eq!(repo.pull_command().stdin, None);
}

#[test]
fn status_judgement() {
    let repo = repo();
    let entries = repo.status(&ok("M  a\u{0}")).unwrap();
    assert_eq!(entries.len(), 1);
    assert_eq!(entries[0].from_path, "a");
    assert!(matches!(repo.status(&ok("M  a")), Err(GifsyError::ParserError(text)) if text.is_empty()));
    assert!(matches!(
        repo.status(&failed(Some(128), "M  a\u{0}", "fatal: not a repository")),
        Err(GifsyError::CmdFail(128, text)) if text == "fatal: not a repository"
    ));
    assert!(matches!(repo.status(&failed(None, "", "killed")), Err(GifsyError::CmdFail(-6, text)) if text == "killed"));
}

#[test]
fn stage_judgements() {
    let repo = repo();
    assert!(repo.pull(&ok("up to date")).is_ok());
    assert!(repo.push(&ok("")).is_ok());
    assert!(repo.submodules_init(&ok("")).is_ok());
    assert!(repo.submodules_update(&ok("")).is_ok());
    assert!(matches!(
        repo.pull(&failed(Some(1), "out", "err")),
        Err(GifsyError::CmdFail(1, text)) if text == "couldn't call git pull: out err: err"
    ));
    assert!(matches!(
        repo.pull(&failed(None, "", "")),
        Err(GifsyError::CmdFail(-1, text)) if text == "couldn't call git pull:  err: "
    ));
    assert!(matches!(
        repo.push(&failed(None, "o", "e")),
        Err(GifsyError::CmdFail(-2, text)) if text == "couldn't call git push: o err: e"
    ));
    assert!(matches!(
        repo.submodules_init(&failed(None, "o", "e")),
        Err(GifsyError::CmdFail(-3, text)) if text == "couldn't call init submodules: o err: e"
    ));
    assert!(matches!(
        repo.submodules_update(&failed(Some(2), "o", "e")),
        Err(GifsyError::CmdFail(2, text)) if text == "couldn't call update submodules: o err: e"
    ));
    assert!(matches!(
        repo.commit(&Vec::new(), &failed(None, "o", "e")),
        Err(GifsyError::CmdFail(-7, text)) if text == "couldn't call git commit: o err: e"
    ));
    assert!(matches!(repo.commit(&Vec::new(), &ok("")), Ok(None)));
    let status = parse("M  a\u{0}").unwrap();
    let notice = repo.commit(&status, &ok("")).unwrap().unwrap();
    assert_eq!(notice.body, "the following files have been changed:\n\n  a\n");
    assert!(ok("").success());
    assert!(!failed(Some(1), "", "").success());
    assert!(!failed(None, "", "").success());
}

#[test]
fn add_stages_only_the_modified_entry() {
    let repo = repo();
    let status = parse("D  gone\u{0}M  kept\u{0}").unwrap();
    let pending = match repo.add(status).next(&repo) {
        AddStep::Run(command, pending) => {
            assert_eq!(args(&command), vec!["add", "kept"]);
            pending
        }
        _ => panic!("a record is to be staged"),
    };
    let staged = match pending.record(&ok("")).unwrap().next(&repo) {
        AddStep::Done(staged) => staged,
        _ => panic!("nothing is left to stage"),
    };
    assert_eq!(staged.len(), 1);
    assert_eq!(staged[0].index_state, 'M');
    assert_eq!(staged[0].from_path, "kept");
}

#[test]
fn add_leaves_unmerged_entries_to_a_person() {
    let repo = repo();
    let status = parse("UU both\u{0}R  old\u{0}new\u{0}DU theirs\u{0} M late\u{0}").unwrap();
    let mut staging = repo.add(status);
    let mut warned: Vec<String> = Vec::new();
    let mut ran: Vec<String> = Vec::new();
    let staged: Vec<Status> = loop {
        match staging.next(&repo) {
            AddStep::Warn(notice, rest) => {
                warned.push(notice.body);
                staging = rest;
            }
            AddStep::Run(command, pending) => {
                ran.push(command.args.join(" "));
                staging = pending.record(&ok("")).unwrap();
            }
            AddStep::Done(staged) => break staged,
        }
    };
    assert_eq!(warned, vec!["File both need to be manually merged", "File theirs need to be manually merged"]);
    assert_eq!(ran, vec!["add new", "add late"]);
    let paths: Vec<String> = staged.iter().map(|e| e.file()).collect();
    assert_eq!(paths, vec!["new", "late"]);
    assert!(staged.iter().all(|e| !e.is_unmerged()));
}

#[test]
fn add_stops_at_the_first_failure() {
    let repo = repo();
    let status = parse("M  a\u{0}M  b\u{0}").unwrap();
    let pending = match repo.add(status).next(&repo) {
        AddStep::Run(_, pending) => pending,
        _ => panic!("a record is to be staged"),
    };
    assert!(matches!(
        pending.record(&failed(Some(128), "", "fatal: pathspec")),
        Err(GifsyError::CmdFail(128, text)) if text == "can't add a (fatal: pathspec)"
    ));
    let status = parse("M  a\u{0}").unwrap();
    let pending = match repo.add(status).next(&repo) {
        AddStep::Run(_, pending) => pending,
        _ => panic!("a record is to be staged"),
    };
    assert!(matches!(
        pending.record(&failed(None, "", "")),
        Err(GifsyError::CmdFail(-5, text)) if text == "can't add a ()"
    ));
}

#[test]
fn add_of_nothing_is_done_at_once() {
    let repo = repo();
    assert!(matches!(repo.add(Vec::new()).next(&repo), AddStep::Done(staged) if staged.is_empty()));
    let only_deleted = parse("D  a\u{0}D  b\u{0}").unwrap();
    assert!(matches!(repo.add(only_deleted).next(&repo), AddStep::Done(staged) if staged.is_empty()));
}

#[test]
fn sync_of_a_clean_tree_goes_straight_to_pull() {
    let script = vec![ok(""), ok(""), ok(""), ok(""), ok("")].into_iter().map(Event::Exited).collect();
    let (ran, notices, state) = drive(script);
    assert_eq!(
        lists(&ran),
        vec!["status --porcelain -z", "pull origin --rebase --autostash", "submodule init", "submodule update", "push origin"]
    );
    assert!(notices.is_empty());
    assert!(matches!(state, SyncState::Done));
}

#[test]
fn sync_commits_local_changes_before_the_pull() {
    let script = vec![
        ok("M  a\u{0}D  gone\u{0}?  new\u{0}"),
        ok(""),
        ok(""),
        ok("M  a\u{0}D  gone\u{0}A  new\u{0}"),
        ok(""),
        ok(""),
        ok(""),
        ok(""),
        ok(""),
    ]
    .into_iter()
    .map(Event::Exited)
    .collect();
    let (ran, notices, state) = drive(script);
    assert_eq!(
        lists(&ran),
        vec![
            "status --porcelain -z",
            "add a",
            "add new",
            "status --porcelain -z",
            "commit --file -",
            "pull origin --rebase --autostash",
            "submodule init",
            "submodule update",
            "push origin"
        ]
    );
    assert!(matches!(state, SyncState::Done));
    assert_eq!(notices.len(), 1);
    assert_eq!(notices[0].summary, "GIt FileSYncronization Files Modified");
    assert_eq!(notices[0].body, "the following files have been changed:\n\n  a\n  gone\n  new\n");
}

#[test]
fn sync_pipes_the_commit_message() {
    let repo = repo();
    let step = sync(&repo, SyncState::Requery, Event::Exited(ok("R  old\u{0}new\u{0}")));
    assert!(matches!(&step.state, SyncState::Commit(entries) if entries.len() == 1));
    let command = step.command.unwrap();
    assert_eq!(args(&command), vec!["commit", "--file", "-"]);
    let message = command.stdin.unwrap();
    assert!(message.starts_with("changes on host at "));
    assert!(message.ends_with("\n\n  > old -> new\n"));
}

#[test]
fn sync_announces_unmerged_files() {
    let script: Vec<Event> = vec![ok("UU both\u{0}M  a\u{0}AU ours\u{0}")].into_iter().map(Event::Exited).collect();
    let (ran, notices, state) = drive(script);
    assert_eq!(lists(&ran), vec!["status --porcelain -z", "add a"]);
    assert_eq!(notices.len(), 1);
    assert_eq!(notices[0].summary, "GIt FileSYncronization needs attension");
    assert_eq!(notices[0].body, "File both need to be manually merged");
    let step = sync(&repo(), state, Event::Exited(ok("")));
    assert!(matches!(step.state, SyncState::Requery));
    assert_eq!(step.notices.len(), 1);
    assert_eq!(step.notices[0].body, "File ours need to be manually merged");
    assert_eq!(args(&step.command.unwrap()), vec!["status", "--porcelain", "-z"]);
}

#[test]
fn sync_keeps_unmerged_files_out_of_the_commit() {
    let repo = repo();
    let step = sync(&repo, SyncState::Requery, Event::Exited(ok("UU both\u{0}M  a\u{0}AU ours\u{0}R  b\u{0}c\u{0}")));
    match &step.state {
        SyncState::Commit(entries) => {
            let paths: Vec<String> = entries.iter().map(|e| e.file()).collect();
            assert_eq!(paths, vec!["a", "c"]);
            assert!(entries.iter().all(|e| !e.is_unmerged()));
        }
        _ => panic!("the commit is next"),
    }
    let message = step.command.unwrap().stdin.unwrap();
    assert!(message.ends_with("\n\n  ~ a\n  > b -> c\n"), "{message}");
    assert!(!message.contains("both"));
    assert!(!message.contains("ours"));
    let step = sync(&repo, step.state, Event::Exited(ok("")));
    assert!(matches!(step.state, SyncState::Pull));
    assert_eq!(step.notices.len(), 1);
    assert_eq!(step.notices[0].body, "the following files have been changed:\n\n  a\n  c\n");
}

#[test]
fn sync_commits_nothing_of_a_tree_that_is_all_unmerged() {
    let script: Vec<Event> = vec![ok("UU both\u{0}"), ok("UU both\u{0}"), ok("")].into_iter().map(Event::Exited).collect();
    let (ran, notices, state) = drive(script);
    assert_eq!(lists(&ran), vec!["status --porcelain -z", "status --porcelain -z", "commit --file -", "pull origin --rebase --autostash"]);
    let bodies: Vec<&str> = notices.iter().map(|n| n.body.as_str()).collect();
    assert_eq!(bodies, vec!["File both need to be manually merged"]);
    assert!(matches!(state, SyncState::Pull));
}

#[test]
fn commit_step_stamps_the_message_by_the_clock() {
    let repo = repo();
    let step = commit_step(&repo, parse("M  a\u{0}").unwrap(), Some(0));
    assert!(matches!(&step.state, SyncState::Commit(entries) if entries.len() == 1));
    let command = step.command.unwrap();
    assert_eq!(args(&command), vec!["commit", "--file", "-"]);
    assert_eq!(command.stdin, Some("changes on host at Thu, 1 Jan 1970 00:00:00 +0000\n\n  ~ a\n".to_string()));
    assert!(step.notices.is_empty());
}

#[test]
fn commit_step_halts_on_a_clock_out_of_range() {
    let repo = repo();
    for clock in [None, Some(253_402_300_800), Some(u64::MAX)] {
        let step = commit_step(&repo, parse("M  a\u{0}").unwrap(), clock);
        assert!(matches!(step.state, SyncState::Failed(GifsyError::IoError(text)) if text == "the system clock is out of range"));
        assert!(step.command.is_none());
        assert!(step.notices.is_empty());
    }
}

#[test]
fn sync_halts_at_the_first_failing_stage() {
    let stages = ["status", "add", "status", "commit", "pull", "submodule", "submodule", "push"];
    for failing in 0..stages.len() {
        let mut script = Vec::new();
        for at in 0..stages.len() {
            let stdout = if stages[at] == "status" { "M  a\u{0}" } else { "" };
            if at == failing {
                script.push(Event::Exited(failed(Some(42), stdout, "boom")));
            } else {
                script.push(Event::Exited(ok(stdout)));
            }
        }
        let (ran, notices, state) = drive(script);
        assert_eq!(ran.len(), failing + 1, "stage {failing}");
        assert_eq!(ran[failing][0], stages[failing]);
        assert_eq!(notices.len(), if failing > 3 { 1 } else { 0 });
        assert!(matches!(state, SyncState::Failed(GifsyError::CmdFail(42, _))), "stage {failing}");
    }
}

#[test]
fn sync_halts_on_unreadable_status() {
    let (ran, _, state) = drive(vec![Event::Exited(ok("X  a\u{0}")), Event::Exited(ok(""))]);
    assert_eq!(ran.len(), 1);
    assert!(matches!(state, SyncState::Failed(GifsyError::ParserError(_))));
}

#[test]
fn sync_halts_when_a_command_cannot_run() {
    let (ran, _, state) = drive(vec![Event::Exited(ok("")), Event::Broken("no git".to_string()), Event::Exited(ok(""))]);
    assert_eq!(lists(&ran), vec!["status --porcelain -z", "pull origin --rebase --autostash"]);
    assert!(matches!(state, SyncState::Failed(GifsyError::IoError(text)) if text == "no git"));
}

#[test]
fn sync_stays_ended() {
    let repo = repo();
    let step = sync(&repo, SyncState::Done, Event::Exited(ok("")));
    assert!(matches!(step.state, SyncState::Done));
    assert!(step.command.is_none());
    let step = sync(&repo, SyncState::Failed(GifsyError::NoRepoitory), Event::Exited(ok("")));
    assert!(matches!(step.state, SyncState::Failed(GifsyError::NoRepoitory)));
    assert!(step.command.is_none());
    let step = sync(&repo, SyncState::Failed(GifsyError::CmdFail(3, "x".to_string())), Event::Broken("y".to_string()));
    assert!(matches!(step.state, SyncState::Failed(GifsyError::CmdFail(3, text)) if text == "x"));
}
