//! The decisions of one invocation, as a machine from event to next step.
//! The runner around the library performs each step (a directory, a record,
//! a child process) and hands back what happened; the machine answers with
//! the next step, until it answers `Finish`.
use vstd::prelude::*;
use vstd::string::*;
use crate::intent::{Action, Saver};
use crate::record::{
    exit_code, list_line, list_lines, not_found_message, not_found_text, parse_record,
    record_content, record_pieces, record_text,
};
use crate::text::views;

verus! {

/// What the runner reports back after the previous step.
pub enum Event {
    /// Nothing has been done yet.
    Start,
    /// The database directory exists.
    DirReady,
    /// The database directory could not be made; the system's message.
    DirFailed(String),
    /// The record was written.
    Saved,
    /// The record could not be created or written.
    SaveFailed,
    /// The names of the records, in the order the directory gave them.
    Listed(Vec<String>),
    /// The content of the record.
    Read(String),
    /// The record could not be read.
    ReadFailed,
    /// The record was removed.
    Removed,
    /// The record could not be removed.
    RemoveFailed,
    /// The child process ended, with its exit code if it reported one.
    Exited(Option<i32>),
    /// The child process could not be started; the system's message.
    SpawnFailed(String),
}

/// What the runner is to do next.
pub enum Step {
    /// Make the directory and its missing parents, unless it is a directory.
    EnsureDir { dir: String },
    /// Create or truncate the record `name` in `dir` and write `content`.
    WriteRecord { dir: String, name: String, content: String },
    /// Enumerate the records in `dir`.
    ListRecords { dir: String },
    /// Read the record `name` in `dir`.
    ReadRecord { dir: String, name: String },
    /// Remove the record `name` in `dir`.
    RemoveRecord { dir: String, name: String },
    /// Print an empty line, then run `cmd` with `args`, sharing the
    /// standard streams, and wait for it.
    Spawn { cmd: String, args: Vec<String> },
    /// Print `out` to standard output and `err` to the error stream, a line
    /// each, then end with status `code`.
    Finish { out: Vec<String>, err: Vec<String>, code: i32 },
}

/// The message for a record that could not be saved.
pub open spec fn save_failed_text() -> Seq<char> {
    seq!['F', 'a', 'i', 'l', 'e', 'd', ' ', 't', 'o', ' ', 's', 'a', 'v', 'e', ' ', 'c', 'm', 'd']
}

/// `s` ends the invocation, printing exactly `out` and `err`, with status `code`.
pub open spec fn finishes(s: Step, out: Seq<Seq<char>>, err: Seq<Seq<char>>, code: i32) -> bool {
    match s {
        Step::Finish { out: o, err: e, code: c } => views(o@) == out && views(e@) == err && c
            == code,
        _ => false,
    }
}

/// The directory that a step works in, if it touches the database.
pub open spec fn step_dir(s: Step) -> Option<Seq<char>> {
    match s {
        Step::EnsureDir { dir } => Some(dir@),
        Step::WriteRecord { dir, .. } => Some(dir@),
        Step::ListRecords { dir } => Some(dir@),
        Step::ReadRecord { dir, .. } => Some(dir@),
        Step::RemoveRecord { dir, .. } => Some(dir@),
        _ => None,
    }
}

/// The step that follows the directory being ready, for an intent.
pub open spec fn first_store_step(s: &Saver, r: Step) -> bool {
    match s.action {
        Action::Save => r matches Step::WriteRecord { dir, name, content } && dir@ == s.db_dir@
            && name@ == s.name@ && content@ == record_text(s.cmd@, views(s.cmd_args@)),
        Action::List => r matches Step::ListRecords { dir } && dir@ == s.db_dir@,
        Action::Show | Action::Run => r matches Step::ReadRecord { dir, name } && dir@
            == s.db_dir@ && name@ == s.name@,
        Action::Delete => r matches Step::RemoveRecord { dir, name } && dir@ == s.db_dir@
            && name@ == s.name@,
    }
}

/// Output of a single line.
fn one_line(s: String) -> (r: Vec<String>)
    ensures
        views(r@) == seq![s@],
{
    let mut r: Vec<String> = Vec::new();
    r.push(s);
    assert(views(r@) =~= seq![s@]);
    r
}

/// Output of no lines.
fn no_lines() -> (r: Vec<String>)
    ensures
        views(r@) == Seq::<Seq<char>>::empty(),
{
    let r: Vec<String> = Vec::new();
    assert(views(r@) =~= Seq::<Seq<char>>::empty());
    r
}

/// A copy of a list of words.
fn copy_words(v: &Vec<String>) -> (r: Vec<String>)
    ensures
        views(r@) == views(v@),
{
    let mut r: Vec<String> = Vec::new();
    let mut i: usize = 0;
    while i < v.len()
        invariant
            0 <= i <= v.len(),
            views(r@) == views(v@).subrange(0, i as int),
        decreases v.len() - i,
    {
        let ghost before = r@;
        r.push(v[i].clone());
        assert(views(r@) =~= views(v@).subrange(0, i + 1)) by {
            assert(views(r@) =~= views(before).push(v@[i as int]@));
        }
        i = i + 1;
    }
    assert(views(v@).subrange(0, v.len() as int) =~= views(v@));
    r
}

impl Saver {
    /// The next step of this invocation after `event`. The directory is
    /// ensured first; then a save writes the record and runs the command, a
    /// listing shows the names, a show prints the record, a run executes it,
    /// and a delete removes it. Every step that touches the database works in
    /// this intent's directory.
    pub fn step(&self, event: Event) -> (r: Step)
        ensures
            step_dir(r) matches Some(d) ==> d == self.db_dir@,
            match event {
                Event::Start => r matches Step::EnsureDir { dir } && dir@ == self.db_dir@,
                Event::DirReady => first_store_step(self, r),
                Event::DirFailed(m) => finishes(r, seq![m@], Seq::empty(), 1),
                Event::Saved => r matches Step::Spawn { cmd, args } && cmd@ == self.cmd@
                    && views(args@) == views(self.cmd_args@),
                Event::SaveFailed => finishes(r, seq![save_failed_text()], Seq::empty(), 1),
                Event::Listed(names) => finishes(
                    r,
                    Seq::new(names@.len(), |i: int| list_line(i as nat, names@[i]@)),
                    Seq::empty(),
                    0,
                ),
                Event::Read(content) => if self.action == Action::Show {
                    finishes(r, seq![content@], Seq::empty(), 0)
                } else {
                    r matches Step::Spawn { cmd, args } && cmd@ == record_pieces(content@)[0]
                        && views(args@) == record_pieces(content@).drop_first()
                },
                Event::ReadFailed | Event::RemoveFailed => finishes(
                    r,
                    seq![not_found_text(self.name@, self.db_dir@)],
                    Seq::empty(),
                    1,
                ),
                Event::Removed => finishes(r, Seq::empty(), Seq::empty(), 0),
                Event::Exited(c) => finishes(
                    r,
                    Seq::empty(),
                    Seq::empty(),
                    match c {
                        Some(v) => v,
                        None => 0,
                    },
                ),
                Event::SpawnFailed(m) => finishes(r, Seq::empty(), seq![m@], 1),
            },
    {
        match event {
            Event::Start => Step::EnsureDir { dir: self.db_dir.clone() },
            Event::DirReady => match self.action {
                Action::Save => Step::WriteRecord {
                    dir: self.db_dir.clone(),
                    name: self.name.clone(),
                    content: record_content(&self.cmd, &self.cmd_args),
                },
                Action::List => Step::ListRecords { dir: self.db_dir.clone() },
                Action::Show | Action::Run => Step::ReadRecord {
                    dir: self.db_dir.clone(),
                    name: self.name.clone(),
                },
                Action::Delete => Step::RemoveRecord {
                    dir: self.db_dir.clone(),
                    name: self.name.clone(),
                },
            },
            Event::DirFailed(m) => Step::Finish { out: one_line(m), err: no_lines(), code: 1 },
            Event::Saved => Step::Spawn { cmd: self.cmd.clone(), args: copy_words(&self.cmd_args) },
            Event::SaveFailed => {
                let m = String::from_str("Failed to save cmd");
                proof {
                    reveal_strlit("Failed to save cmd");
                }
                assert(m@ =~= save_failed_text());
                Step::Finish { out: one_line(m), err: no_lines(), code: 1 }
            },
            Event::Listed(names) => {
                let lines = list_lines(&names);
                assert(views(lines@) =~= Seq::new(
                    names@.len(),
                    |i: int| list_line(i as nat, names@[i]@),
                ));
                Step::Finish { out: lines, err: no_lines(), code: 0 }
            },
            Event::Read(content) => {
                if self.action == Action::Show {
                    Step::Finish { out: one_line(content), err: no_lines(), code: 0 }
                } else {
                    let (cmd, args) = parse_record(&content);
                    Step::Spawn { cmd, args }
                }
            },
            Event::ReadFailed | Event::RemoveFailed => Step::Finish {
                out: one_line(not_found_message(&self.name, &self.db_dir)),
                err: no_lines(),
                code: 1,
            },
            Event::Removed => Step::Finish { out: no_lines(), err: no_lines(), code: 0 },
            Event::Exited(c) => Step::Finish { out: no_lines(), err: no_lines(), code: exit_code(c) },
            Event::SpawnFailed(m) => Step::Finish { out: no_lines(), err: one_line(m), code: 1 },
        }
    }
}

} // verus!
