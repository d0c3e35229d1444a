//! Undoing a batch of moves: the log is replayed record by record, each
//! file goes back to where it was, the log is removed, and the directories
//! that the batch had filled are removed where they are left empty.

use vstd::prelude::*;
use vstd::string::*;
use crate::organizer::{
    parse_record, prune_order, record_in, remove_directories, LogRecord, RecordView, Reply,
};
use crate::paths::{ancestors, ancestors_of, parent, parent_of};
use crate::text::{is_blank, is_blank_text, split, split_text, texts, trim, trim_text};

verus! {

broadcast use vstd::string::group_string_axioms;

/// Why a batch could not be undone.
#[derive(Debug, Clone, Copy, PartialEq, Eq, Structural)]
pub enum UndoError {
    /// There is no log: nothing is left to undo.
    LogNotFound,
    /// A file that the log names is no longer where it was moved to.
    MissingUndoTarget,
    /// A call on the file system failed.
    IoError,
    /// A line of the log is not a record.
    MalformedLogEntry,
}

/// What an undo did: how many files it put back and how many directories
/// it removed.
#[derive(Debug, Clone, Copy, PartialEq, Eq, Structural)]
pub struct UndoReport {
    pub restored: usize,
    pub pruned: usize,
}

/// The log as it was found.
#[derive(Debug)]
pub enum LogFile {
    /// There is no log.
    Missing,
    /// The log is there and cannot be read.
    Unreadable,
    /// The log holds this text.
    Contents(String),
}

/// Where an undo stands: the next thing to do, or how it ended.
#[derive(Debug, Clone, Copy, PartialEq, Eq)]
pub enum UndoStage {
    /// The destination of the record with this number is to be looked for.
    Check(usize),
    /// The directory for the record's original path is to be made.
    MakeParent(usize),
    /// The record's file is to be moved back.
    Rename(usize),
    /// The log is to be removed.
    RemoveLog,
    /// The directory with this number is to be asked whether it is empty.
    Probe(usize),
    /// The directory with this number is to be removed.
    Remove(usize),
    /// Nothing is left to do.
    Finished(Result<UndoReport, UndoError>),
}

/// What is to be done next for an undo.
#[derive(Debug, PartialEq, Eq)]
pub enum UndoAction {
    /// Tell whether something exists at `path`.
    CheckExists { path: String },
    /// Make the directory `path` and those above it that are missing.
    CreateDirectories { path: String },
    /// Move the file at `from` to `to`.
    Rename { from: String, to: String },
    /// Remove the log, if it is there.
    RemoveLog,
    /// Tell whether the directory `path` is empty.
    CheckEmpty { path: String },
    /// Remove the directory `path`.
    RemoveDirectory { path: String },
    /// Stop: the undo has ended in this way.
    Finished(Result<UndoReport, UndoError>),
}

/// An action over texts.
pub enum UndoActionView {
    CheckExists { path: Seq<char> },
    CreateDirectories { path: Seq<char> },
    Rename { from: Seq<char>, to: Seq<char> },
    RemoveLog,
    CheckEmpty { path: Seq<char> },
    RemoveDirectory { path: Seq<char> },
    Finished(Result<UndoReport, UndoError>),
}

impl View for UndoAction {
    type V = UndoActionView;

    open spec fn view(&self) -> UndoActionView {
        match self {
            UndoAction::CheckExists { path } => UndoActionView::CheckExists { path: path@ },
            UndoAction::CreateDirectories { path } => UndoActionView::CreateDirectories {
                path: path@,
            },
            UndoAction::Rename { from, to } => UndoActionView::Rename { from: from@, to: to@ },
            UndoAction::RemoveLog => UndoActionView::RemoveLog,
            UndoAction::CheckEmpty { path } => UndoActionView::CheckEmpty { path: path@ },
            UndoAction::RemoveDirectory { path } => UndoActionView::RemoveDirectory { path: path@ },
            UndoAction::Finished(outcome) => UndoActionView::Finished(*outcome),
        }
    }
}

/// An undo in progress: the records of the log (nothing for a line that is
/// no record), the directories to try for removal, how many of them were
/// removed, and where the undo stands.
#[derive(Debug)]
pub struct UndoRun {
    pub entries: Vec<Option<LogRecord>>,
    pub queue: Vec<String>,
    pub pruned: usize,
    pub stage: UndoStage,
}

/// An undo in progress over texts.
pub struct UndoRunView {
    pub entries: Seq<Option<RecordView>>,
    pub queue: Seq<Seq<char>>,
    pub pruned: nat,
    pub stage: UndoStage,
}

/// An optional log record over texts.
pub open spec fn entry_view(entry: Option<LogRecord>) -> Option<RecordView> {
    match entry {
        Some(record) => Some(record@),
        None => None,
    }
}

/// Optional log records over texts.
pub open spec fn records(entries: Seq<Option<LogRecord>>) -> Seq<Option<RecordView>> {
    Seq::new(entries.len(), |i: int| entry_view(entries[i]))
}

impl View for UndoRun {
    type V = UndoRunView;

    open spec fn view(&self) -> UndoRunView {
        UndoRunView {
            entries: records(self.entries@),
            queue: texts(self.queue@),
            pruned: self.pruned as nat,
            stage: self.stage,
        }
    }
}

/// What the lines of a log hold: for each line that is not blank, the
/// record in it, or nothing where the line, without the white space around
/// it, is no record.
pub open spec fn entries_of(lines: Seq<Seq<char>>) -> Seq<Option<RecordView>>
    decreases lines.len(),
{
    if lines.len() == 0 {
        Seq::<Option<RecordView>>::empty()
    } else {
        let before = entries_of(lines.drop_last());
        let line = lines.last();
        if is_blank(line) {
            before
        } else {
            before.push(record_in(trim(line)))
        }
    }
}

/// What a log holds, line by line.
pub open spec fn log_entries(contents: Seq<char>) -> Seq<Option<RecordView>> {
    entries_of(split(contents, '\n'))
}

/// The directories that a batch has touched: for each record, in turn, the
/// directories that enclose its destination.
pub open spec fn touched(entries: Seq<Option<RecordView>>) -> Seq<Seq<char>>
    decreases entries.len(),
{
    if entries.len() == 0 {
        Seq::<Seq<char>>::empty()
    } else {
        let before = touched(entries.drop_last());
        match entries.last() {
            Some(record) => before + ancestors(record.destination_path),
            None => before,
        }
    }
}

impl UndoRunView {
    /// The stage at which the record with the number `i` is taken up: the
    /// log is removed when no record is left, and a line that is no record
    /// ends the undo.
    pub open spec fn record_stage(self, i: int) -> UndoStage {
        if i >= self.entries.len() {
            UndoStage::RemoveLog
        } else if self.entries[i] is Some {
            UndoStage::Check(i as usize)
        } else {
            UndoStage::Finished(Err(UndoError::MalformedLogEntry))
        }
    }

    /// The stage at which the directory with the number `j` is taken up,
    /// when `pruned` directories were removed: with no directory left the
    /// undo ends well.
    pub open spec fn prune_stage(self, j: int, pruned: nat) -> UndoStage {
        if j >= self.queue.len() {
            UndoStage::Finished(
                Ok(UndoReport { restored: self.entries.len() as usize, pruned: pruned as usize }),
            )
        } else {
            UndoStage::Probe(j as usize)
        }
    }

    /// Whether the stage names a record or a directory that is there, and
    /// the directories are those that the records ask for.
    pub open spec fn wf(self) -> bool {
        &&& self.queue == prune_order(touched(self.entries))
        &&& self.entries.len() <= usize::MAX
        &&& self.queue.len() <= usize::MAX
        &&& match self.stage {
            UndoStage::Check(i) => self.pruned == 0 && i < self.entries.len()
                && self.entries[i as int] is Some,
            UndoStage::MakeParent(i) => self.pruned == 0 && i < self.entries.len()
                && self.entries[i as int] is Some && parent(
                self.entries[i as int]->0.original_path,
            ) is Some,
            UndoStage::Rename(i) => self.pruned == 0 && i < self.entries.len()
                && self.entries[i as int] is Some,
            UndoStage::RemoveLog => self.pruned == 0,
            UndoStage::Probe(j) => j < self.queue.len() && self.pruned <= j,
            UndoStage::Remove(j) => j < self.queue.len() && self.pruned <= j,
            UndoStage::Finished(_) => true,
        }
    }

    /// What is to be done at this stage.
    pub open spec fn action(self) -> UndoActionView {
        match self.stage {
            UndoStage::Check(i) => UndoActionView::CheckExists {
                path: self.entries[i as int]->0.destination_path,
            },
            UndoStage::MakeParent(i) => UndoActionView::CreateDirectories {
                path: parent(self.entries[i as int]->0.original_path)->0,
            },
            UndoStage::Rename(i) => UndoActionView::Rename {
                from: self.entries[i as int]->0.destination_path,
                to: self.entries[i as int]->0.original_path,
            },
            UndoStage::RemoveLog => UndoActionView::RemoveLog,
            UndoStage::Probe(j) => UndoActionView::CheckEmpty { path: self.queue[j as int] },
            UndoStage::Remove(j) => UndoActionView::RemoveDirectory { path: self.queue[j as int] },
            UndoStage::Finished(outcome) => UndoActionView::Finished(outcome),
        }
    }

    /// How many directories were removed once the action of this stage
    /// ended with `reply`.
    pub open spec fn next_pruned(self, reply: Reply) -> nat {
        if self.stage is Remove && reply == Reply::Yes {
            self.pruned + 1
        } else {
            self.pruned
        }
    }

    /// The stage that follows when the action of this stage ended with
    /// `reply`.
    ///
    /// A record whose destination is missing ends the undo with
    /// `MissingUndoTarget`; one whose directory cannot be made or whose
    /// file cannot be moved back ends it with `IoError`. After the last
    /// record the log is removed; where that fails the undo ends with
    /// `IoError`. Then each directory is removed if it is empty; a
    /// directory that is not empty, cannot be read or cannot be removed is
    /// passed over.
    pub open spec fn next_stage(self, reply: Reply) -> UndoStage {
        match self.stage {
            UndoStage::Check(i) => if reply == Reply::Yes {
                if parent(self.entries[i as int]->0.original_path) is Some {
                    UndoStage::MakeParent(i)
                } else {
                    UndoStage::Rename(i)
                }
            } else {
                UndoStage::Finished(Err(UndoError::MissingUndoTarget))
            },
            UndoStage::MakeParent(i) => if reply == Reply::Yes {
                UndoStage::Rename(i)
            } else {
                UndoStage::Finished(Err(UndoError::IoError))
            },
            UndoStage::Rename(i) => if reply == Reply::Yes {
                self.record_stage(i + 1)
            } else {
                UndoStage::Finished(Err(UndoError::IoError))
            },
            UndoStage::RemoveLog => if reply == Reply::Failed {
                UndoStage::Finished(Err(UndoError::IoError))
            } else {
                self.prune_stage(0, 0)
            },
            UndoStage::Probe(j) => if reply == Reply::Yes {
                UndoStage::Remove(j)
            } else {
                self.prune_stage(j + 1, self.pruned)
            },
            UndoStage::Remove(j) => self.prune_stage(j + 1, self.next_pruned(reply)),
            UndoStage::Finished(outcome) => UndoStage::Finished(outcome),
        }
    }

    /// The undo after its action ended with `reply`.
    pub open spec fn next(self, reply: Reply) -> UndoRunView {
        UndoRunView { stage: self.next_stage(reply), pruned: self.next_pruned(reply), ..self }
    }

    /// The undo of a log with the text `contents`, before anything is done.
    pub open spec fn of_log(contents: Seq<char>) -> UndoRunView {
        let entries = log_entries(contents);
        let fresh = UndoRunView {
            entries,
            queue: prune_order(touched(entries)),
            pruned: 0,
            stage: UndoStage::RemoveLog,
        };
        UndoRunView { stage: fresh.record_stage(0), ..fresh }
    }

    /// An undo that has ended with `error` before it began.
    pub open spec fn failed(error: UndoError) -> UndoRunView {
        UndoRunView {
            entries: Seq::empty(),
            queue: Seq::empty(),
            pruned: 0,
            stage: UndoStage::Finished(Err(error)),
        }
    }
}

/// The log is removed only when the last record's file is back in place.
pub proof fn lemma_log_removed_last(run: UndoRunView, reply: Reply)
    requires
        run.wf(),
        run.next(reply).stage is RemoveLog,
    ensures
        run.stage matches UndoStage::Rename(i) && i + 1 == run.entries.len() && reply == Reply::Yes,
{
}

/// Once the log is removed the undo cannot fail: an undo that fails leaves
/// the log in place.
pub proof fn lemma_failure_keeps_log(run: UndoRunView, reply: Reply)
    requires
        run.stage is Probe || run.stage is Remove,
    ensures
        !(run.next(reply).stage matches UndoStage::Finished(Err(_))),
{
}

/// An undo that ends well has put every file of the log back.
pub proof fn lemma_success_restores_all(run: UndoRunView, reply: Reply)
    requires
        run.wf(),
        !(run.stage is Finished),
        run.next(reply).stage matches UndoStage::Finished(Ok(report)),
    ensures
        run.next(reply).stage matches UndoStage::Finished(Ok(report)) && report.restored
            == run.entries.len(),
        run.stage is RemoveLog || run.stage is Probe || run.stage is Remove,
{
}

/// Every step keeps an undo well formed.
pub proof fn lemma_next_wf(run: UndoRunView, reply: Reply)
    requires
        run.wf(),
    ensures
        run.next(reply).wf(),
{
}

/// Adding an entry to the entries adds its record to the records.
pub proof fn lemma_records_push(entries: Seq<Option<LogRecord>>, entry: Option<LogRecord>)
    ensures
        records(entries.push(entry)) == records(entries).push(entry_view(entry)),
{
    assert(records(entries.push(entry)) =~= records(entries).push(entry_view(entry)));
}

impl UndoRun {
    /// An undo that has ended with `error` before it began.
    fn ended(error: UndoError) -> (run: UndoRun)
        ensures
            run@ == UndoRunView::failed(error),
            run@.wf(),
    {
        let run = UndoRun {
            entries: Vec::new(),
            queue: Vec::new(),
            pruned: 0,
            stage: UndoStage::Finished(Err(error)),
        };
        proof {
            assert(run@.entries =~= Seq::<Option<RecordView>>::empty());
            assert(run@.queue =~= Seq::<Seq<char>>::empty());
            assert(prune_order(touched(Seq::<Option<RecordView>>::empty())) =~= Seq::<
                Seq<char>,
            >::empty()) by {
                reveal_with_fuel(crate::organizer::candidates, 2);
                reveal_with_fuel(crate::organizer::deepest_first, 2);
            }
        }
        run
    }

    /// The undo of the batch that `log` records, before anything is done.
    /// Without a log the undo has ended with `LogNotFound`, and with a log
    /// that cannot be read with `IoError`.
    pub fn start(log: LogFile) -> (run: UndoRun)
        ensures
            run@.wf(),
            run@ == match log {
                LogFile::Missing => UndoRunView::failed(UndoError::LogNotFound),
                LogFile::Unreadable => UndoRunView::failed(UndoError::IoError),
                LogFile::Contents(text) => UndoRunView::of_log(text@),
            },
    {
        let text = match log {
            LogFile::Missing => {
                return UndoRun::ended(UndoError::LogNotFound);
            },
            LogFile::Unreadable => {
                return UndoRun::ended(UndoError::IoError);
            },
            LogFile::Contents(text) => text,
        };
        let lines = split_text(text.as_str(), '\n');
        let mut entries: Vec<Option<LogRecord>> = Vec::new();
        let mut dirs: Vec<String> = Vec::new();
        let mut i: usize = 0;
        proof {
            assert(texts(lines@).take(0) == Seq::<Seq<char>>::empty());
            assert(records(entries@) =~= Seq::<Option<RecordView>>::empty());
            assert(texts(dirs@) =~= Seq::<Seq<char>>::empty());
        }
        while i < lines.len()
            invariant
                i <= lines.len(),
                records(entries@) == entries_of(texts(lines@).take(i as int)),
                texts(dirs@) == touched(records(entries@)),
            decreases lines.len() - i,
        {
            let line = &lines[i];
            proof {
                let now = texts(lines@).take(i + 1);
                assert(now.drop_last() == texts(lines@).take(i as int));
                assert(now.last() == line@);
            }
            if !is_blank_text(line.as_str()) {
                let trimmed = trim_text(line.as_str());
                let entry = parse_record(trimmed.as_str());
                let ghost before = records(entries@);
                let ghost before_dirs = texts(dirs@);
                match &entry {
                    Some(record) => {
                        let mut more = ancestors_of(record.destination_path.as_str());
                        let ghost added = texts(more@);
                        dirs.append(&mut more);
                        assert(texts(dirs@) =~= before_dirs + added);
                    },
                    None => {},
                }
                proof {
                    lemma_records_push(entries@, entry);
                    let after = before.push(entry_view(entry));
                    assert(after.drop_last() == before);
                }
                entries.push(entry);
            }
            i += 1;
        }
        assert(texts(lines@).take(lines@.len() as int) == texts(lines@));
        let queue = remove_directories(&dirs);
        let ghost width = queue.len();
        let stage = if entries.len() == 0 {
            UndoStage::RemoveLog
        } else if entries[0].is_some() {
            UndoStage::Check(0)
        } else {
            UndoStage::Finished(Err(UndoError::MalformedLogEntry))
        };
        let run = UndoRun { entries, queue, pruned: 0, stage };
        proof {
            if run.entries@.len() > 0 {
                assert(run@.entries[0] == entry_view(run.entries@[0]));
            }
            assert(run@.queue.len() == width);
        }
        run
    }

    /// What is to be done next.
    pub fn action(&self) -> (action: UndoAction)
        requires
            self@.wf(),
        ensures
            action@ == self@.action(),
    {
        match self.stage {
            UndoStage::Check(i) => {
                match &self.entries[i] {
                    Some(record) => UndoAction::CheckExists {
                        path: record.destination_path.clone(),
                    },
                    None => UndoAction::RemoveLog,
                }
            },
            UndoStage::MakeParent(i) => {
                match &self.entries[i] {
                    Some(record) => match parent_of(record.original_path.as_str()) {
                        Some(path) => UndoAction::CreateDirectories { path },
                        None => UndoAction::RemoveLog,
                    },
                    None => UndoAction::RemoveLog,
                }
            },
            UndoStage::Rename(i) => {
                match &self.entries[i] {
                    Some(record) => UndoAction::Rename {
                        from: record.destination_path.clone(),
                        to: record.original_path.clone(),
                    },
                    None => UndoAction::RemoveLog,
                }
            },
            UndoStage::RemoveLog => UndoAction::RemoveLog,
            UndoStage::Probe(j) => UndoAction::CheckEmpty { path: self.queue[j].clone() },
            UndoStage::Remove(j) => UndoAction::RemoveDirectory { path: self.queue[j].clone() },
            UndoStage::Finished(outcome) => UndoAction::Finished(outcome),
        }
    }

    /// The stage at which the record with the number `i` is taken up.
    fn stage_of_record(&self, i: usize) -> (stage: UndoStage)
        ensures
            stage == self@.record_stage(i as int),
    {
        if i >= self.entries.len() {
            UndoStage::RemoveLog
        } else if self.entries[i].is_some() {
            UndoStage::Check(i)
        } else {
            UndoStage::Finished(Err(UndoError::MalformedLogEntry))
        }
    }

    /// The stage at which the directory with the number `j` is taken up.
    fn stage_of_directory(&self, j: usize, pruned: usize) -> (stage: UndoStage)
        ensures
            stage == self@.prune_stage(j as int, pruned as nat),
    {
        if j >= self.queue.len() {
            UndoStage::Finished(Ok(UndoReport { restored: self.entries.len(), pruned }))
        } else {
            UndoStage::Probe(j)
        }
    }

    /// Takes note of how the action ended and goes on to the next stage.
    pub fn advance(&mut self, reply: Reply)
        requires
            old(self)@.wf(),
        ensures
            final(self)@ == old(self)@.next(reply),
            final(self)@.wf(),
    {
        proof {
            lemma_next_wf(self@, reply);
        }
        let done = match reply {
            Reply::Yes => true,
            _ => false,
        };
        let failed = match reply {
            Reply::Failed => true,
            _ => false,
        };
        let mut pruned = self.pruned;
        let stage = match self.stage {
            UndoStage::Check(i) => {
                if done {
                    let has_parent = match &self.entries[i] {
                        Some(record) => parent_of(record.original_path.as_str()).is_some(),
                        None => false,
                    };
                    if has_parent {
                        UndoStage::MakeParent(i)
                    } else {
                        UndoStage::Rename(i)
                    }
                } else {
                    UndoStage::Finished(Err(UndoError::MissingUndoTarget))
                }
            },
            UndoStage::MakeParent(i) => {
                if done {
                    UndoStage::Rename(i)
                } else {
                    UndoStage::Finished(Err(UndoError::IoError))
                }
            },
            UndoStage::Rename(i) => {
                if done {
                    self.stage_of_record(i + 1)
                } else {
                    UndoStage::Finished(Err(UndoError::IoError))
                }
            },
            UndoStage::RemoveLog => {
                if failed {
                    UndoStage::Finished(Err(UndoError::IoError))
                } else {
                    self.stage_of_directory(0, 0)
                }
            },
            UndoStage::Probe(j) => {
                if done {
                    UndoStage::Remove(j)
                } else {
                    self.stage_of_directory(j + 1, pruned)
                }
            },
            UndoStage::Remove(j) => {
                if done {
                    pruned = pruned + 1;
                }
                self.stage_of_directory(j + 1, pruned)
            },
            UndoStage::Finished(outcome) => UndoStage::Finished(outcome),
        };
        self.stage = stage;
        self.pruned = pruned;
    }
}

} // verus!
