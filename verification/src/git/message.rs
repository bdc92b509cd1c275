//! What a sync run writes for people to read: the commit message and the
//! texts of its notifications.

use vstd::prelude::*;
use super::{GifsyError, GifsyErrorView, Status, StatusView, views};
use crate::clock::{is_stamp, read_clock, stamp_of, timestamp};
use crate::notify::{Notice, NoticeView};

verus! {

/// The glyph that stands for an index state in a commit message.
pub open spec fn flag_glyph(flag: char) -> char {
    if flag == 'M' {
        '~'
    } else if flag == 'A' {
        '+'
    } else if flag == 'D' {
        '-'
    } else if flag == 'R' {
        '>'
    } else if flag == 'U' {
        '!'
    } else if flag == '?' {
        '?'
    } else if flag == ' ' {
        ' '
    } else {
        '\u{2022}'
    }
}

/// The glyph that stands for an index state in a commit message.
#[verifier::when_used_as_spec(flag_glyph)]
pub fn encode_status_flag(flag: char) -> (r: char)
    ensures
        r == flag_glyph(flag),
{
    match flag {
        'M' => '~',
        'A' => '+',
        'D' => '-',
        'R' => '>',
        'U' => '!',
        '?' => '?',
        ' ' => ' ',
        _ => '\u{2022}',
    }
}

impl StatusView {
    /// The line of the record in a commit message: two spaces, the glyph of
    /// the index state, a space, and the path; for a rename both paths with
    /// an arrow between them.
    pub open spec fn line(self) -> Seq<char> {
        let head = "  "@.push(flag_glyph(self.index_state)) + " "@ + self.from_path;
        match self.to_path {
            Some(to) => head + " -> "@ + to,
            None => head,
        }
    }

    /// The record as the status stream spells it, for logs: both states, a
    /// space, and the path or paths.
    pub open spec fn porcelain(self) -> Seq<char> {
        let head = seq![self.index_state, self.tree_state] + " "@ + self.from_path;
        match self.to_path {
            Some(to) => head + " -> "@ + to,
            None => head,
        }
    }
}

impl Status {
    /// The line of the record in a commit message.
    pub fn to_string(&self) -> (r: String)
        ensures
            r@ == self@.line(),
    {
        let mut text = "  ".to_owned();
        text.push(encode_status_flag(self.index_state));
        text.append(" ");
        text.append(self.from_path.as_str());
        match &self.to_path {
            Some(to) => {
                text.append(" -> ");
                text.append(to.as_str());
            },
            None => {},
        }
        text
    }

    /// The record as the status stream spells it, for logs.
    pub fn to_debug_string(&self) -> (r: String)
        ensures
            r@ == self@.porcelain(),
    {
        let mut text = String::new();
        text.push(self.index_state);
        text.push(self.tree_state);
        assert(text@ =~= seq![self.index_state, self.tree_state]);
        text.append(" ");
        text.append(self.from_path.as_str());
        match &self.to_path {
            Some(to) => {
                text.append(" -> ");
                text.append(to.as_str());
            },
            None => {},
        }
        text
    }
}

/// The lines of the records, each ended by a newline.
pub open spec fn commit_lines(entries: Seq<StatusView>) -> Seq<char>
    decreases entries.len(),
{
    if entries.len() == 0 {
        Seq::empty()
    } else {
        commit_lines(entries.drop_last()) + entries.last().line() + "\n"@
    }
}

/// The commit message for `entries`, written on host `name` at the time
/// `stamp`: a header line, an empty line, and one line for each record.
pub open spec fn commit_message(entries: Seq<StatusView>, name: Seq<char>, stamp: Seq<char>) -> Seq<
    char,
> {
    "changes on "@ + name + " at "@ + stamp + "\n\n"@ + commit_lines(entries)
}

/// The commit message for `status` with the given time stamp.
pub fn commit_message_at(status: &Vec<Status>, name: &str, stamp: &str) -> (r: String)
    ensures
        r@ == commit_message(views(status@), name@, stamp@),
{
    let mut text = "changes on ".to_owned();
    text.append(name);
    text.append(" at ");
    text.append(stamp);
    text.append("\n\n");
    let ghost header = text@;
    let mut i: usize = 0;
    while i < status.len()
        invariant
            i <= status.len(),
            text@ == header + commit_lines(views(status@).take(i as int)),
        decreases status.len() - i,
    {
        let line = status[i].to_string();
        text.append(line.as_str());
        text.append("\n");
        proof {
            let upto = views(status@).take(i + 1);
            assert(upto.drop_last() =~= views(status@).take(i as int));
            assert(upto.last() == status@[i as int]@);
            assert(text@ =~= header + commit_lines(upto));
        }
        i += 1;
    }
    assert(views(status@).take(i as int) =~= views(status@));
    text
}

/// The failure of a commit message for want of a time that can be
/// written down.
pub open spec fn clock_failure() -> GifsyErrorView {
    GifsyErrorView::IoError("the system clock is out of range"@)
}

/// The commit message for `entries` on host `name` at the clock reading
/// `clock`: stamped with the reading's RFC 2822 text, or the failure where
/// the reading has none.
pub open spec fn stamped_message(
    entries: Seq<StatusView>,
    name: Seq<char>,
    clock: Option<u64>,
) -> Result<Seq<char>, GifsyErrorView> {
    match stamp_of(clock) {
        Some(stamp) => Ok(commit_message(entries, name, stamp)),
        None => Err(clock_failure()),
    }
}

/// The value of a message or its failure.
pub open spec fn message_view(r: Result<String, GifsyError>) -> Result<Seq<char>, GifsyErrorView> {
    match r {
        Ok(text) => Ok(text@),
        Err(e) => Err(e@),
    }
}

/// The commit message for `status` on host `name` at the clock reading
/// `clock`. It fails where the clock stands before 1970 or past the year
/// 9999.
pub fn commit_message_on(status: &Vec<Status>, name: &str, clock: Option<u64>) -> (r: Result<
    String,
    GifsyError,
>)
    ensures
        message_view(r) == stamped_message(views(status@), name@, clock),
        r is Ok ==> is_stamp(stamp_of(clock)->0),
{
    match timestamp(clock) {
        Some(stamp) => Ok(commit_message_at(status, name, stamp.as_str())),
        None => Err(GifsyError::IoError("the system clock is out of range".to_owned())),
    }
}

/// The commit message for `status` on host `name`, stamped with the time of
/// the call: the message for whatever the system clock reads.
pub fn create_commit_message(status: &Vec<Status>, name: &str) -> (r: Result<String, GifsyError>)
    ensures
        exists|clock: Option<u64>|
            message_view(r) == #[trigger] stamped_message(views(status@), name@, clock) && (r is Ok
                ==> is_stamp(stamp_of(clock)->0)),
{
    let clock = read_clock();
    commit_message_on(status, name, clock)
}

/// The text that lists the effective paths of the records.
pub open spec fn changed_files(entries: Seq<StatusView>) -> Seq<char>
    decreases entries.len(),
{
    if entries.len() == 0 {
        "the following files have been changed:\n\n"@
    } else {
        changed_files(entries.drop_last()) + "  "@ + entries.last().file() + "\n"@
    }
}

/// The notice that lists the effective paths of the records.
pub open spec fn changed_files_notice(entries: Seq<StatusView>) -> NoticeView {
    NoticeView {
        summary: "GIt FileSYncronization Files Modified"@,
        body: changed_files(entries),
    }
}

/// The notice that asks a person to merge the record.
pub open spec fn unmerged_file_notice(entry: StatusView) -> NoticeView {
    NoticeView {
        summary: "GIt FileSYncronization needs attension"@,
        body: "File "@ + entry.file() + " need to be manually merged"@,
    }
}

/// The notice that follows a commit: it lists the effective path of every
/// committed record. No notice follows a commit of no records.
pub fn commit_notice(status: &Vec<Status>) -> (r: Option<Notice>)
    ensures
        r is Some <==> status@.len() > 0,
        r is Some ==> r->0@ == changed_files_notice(views(status@)),
{
    if status.len() == 0 {
        return None;
    }
    let mut text = "the following files have been changed:\n\n".to_owned();
    let mut i: usize = 0;
    while i < status.len()
        invariant
            i <= status.len(),
            text@ == changed_files(views(status@).take(i as int)),
        decreases status.len() - i,
    {
        let file = status[i].file();
        text.append("  ");
        text.append(file.as_str());
        text.append("\n");
        proof {
            let upto = views(status@).take(i + 1);
            assert(upto.drop_last() =~= views(status@).take(i as int));
            assert(upto.last() == status@[i as int]@);
        }
        i += 1;
    }
    assert(views(status@).take(i as int) =~= views(status@));
    Some(Notice { summary: "GIt FileSYncronization Files Modified".to_owned(), body: text })
}

/// The notice for a record that is left for a person to merge.
pub fn unmerged_notice(entry: &Status) -> (r: Notice)
    ensures
        r@ == unmerged_file_notice(entry@),
{
    let mut text = "File ".to_owned();
    let file = entry.file();
    text.append(file.as_str());
    text.append(" need to be manually merged");
    Notice { summary: "GIt FileSYncronization needs attension".to_owned(), body: text }
}

} // verus!
