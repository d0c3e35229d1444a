//! Moving files and keeping the log that lets a batch of moves be undone.

use vstd::prelude::*;
use vstd::string::*;
use crate::paths::{components, depth, depth_of, parent, parent_of, root, split_components};
use crate::processing_mode::ProcessingMode;
use crate::text::{has_text, lemma_texts_push, same_text, text_of, texts};

verus! {

broadcast use vstd::string::group_string_axioms;

/// The name of the log, in the directory in which the program runs.
pub fn undo_log_name() -> (name: String)
    ensures
        name@ == "undo_log.jsonl"@,
{
    String::from_str("undo_log.jsonl")
}

/// One move: the file at `source` goes to `destination`.
#[derive(Debug, PartialEq, Eq)]
pub struct PlannedMove {
    pub source: String,
    pub destination: String,
}

/// Why a move did not end well.
#[derive(Debug, Clone, Copy, PartialEq, Eq, Structural)]
pub enum MoveError {
    /// The folder for the file could not be made.
    DirectoryCreateFailed,
    /// The file could not be moved.
    MoveFailed,
    /// The file was moved, but the move could not be logged: it cannot be
    /// undone.
    LogAppendFailed,
}

/// What came of an action: it was carried out (or a question was answered
/// with yes), a question was answered with no, or the action failed.
#[derive(Debug, Clone, Copy, PartialEq, Eq, Structural)]
pub enum Reply {
    Yes,
    No,
    Failed,
}

/// One line of the log: a file that was at `original_path` is now at
/// `destination_path`.
#[derive(Debug, PartialEq, Eq)]
pub struct LogRecord {
    pub original_path: String,
    pub destination_path: String,
}

/// A log record as two texts.
pub struct RecordView {
    pub original_path: Seq<char>,
    pub destination_path: Seq<char>,
}

impl View for LogRecord {
    type V = RecordView;

    open spec fn view(&self) -> RecordView {
        RecordView {
            original_path: self.original_path@,
            destination_path: self.destination_path@,
        }
    }
}

/// The error type of `serde_json`.
#[verifier::external_type_specification]
#[verifier::external_body]
pub struct ExJsonError(serde_json::Error);

/// What `serde_json::to_string` gives for the JSON object with two
/// members that are strings, given each member's key and value: the
/// object's text, or nothing where it fails.
pub uninterp spec fn json_object_text(
    first_key: Seq<char>,
    first_value: Seq<char>,
    second_key: Seq<char>,
    second_value: Seq<char>,
) -> Option<Seq<char>>;

/// What `serde_json::from_str` finds in a line under a key: nothing where
/// the line is not JSON; else the text of the member with that key, where
/// the line is an object that has the member as a string.
pub uninterp spec fn json_member_text(line: Seq<char>, key: Seq<char>) -> Option<
    Option<Seq<char>>,
>;

/// Builds a JSON object with two members that are strings and has
/// `serde_json::to_string` write it out. The contract names what that
/// call returns.
#[verifier::external_body]
fn encode_members(first_key: &str, first_value: &str, second_key: &str, second_value: &str) -> (json:
    Result<String, serde_json::Error>)
    ensures
        match json {
            Ok(text) => json_object_text(first_key@, first_value@, second_key@, second_value@)
                == Some(text@),
            Err(_) => json_object_text(first_key@, first_value@, second_key@, second_value@)
                is None,
        },
{
    let mut members = serde_json::Map::new();
    members.insert(first_key.to_string(), serde_json::Value::String(first_value.to_string()));
    members.insert(second_key.to_string(), serde_json::Value::String(second_value.to_string()));
    serde_json::to_string(&serde_json::Value::Object(members))
}

/// Has `serde_json::from_str` read a line as a JSON value and takes the
/// member with the given key out of it, where it is a string. The
/// contract names what was found.
#[verifier::external_body]
fn decode_member(line: &str, key: &str) -> (found: Result<Option<String>, serde_json::Error>)
    ensures
        match found {
            Ok(text) => json_member_text(line@, key@) == Some(text_of(text)),
            Err(_) => json_member_text(line@, key@) is None,
        },
{
    let value: serde_json::Value = serde_json::from_str(line)?;
    Ok(value[key].as_str().map(String::from))
}

/// The line that logs a move: the text of the JSON object with the
/// members `original_path` and `destination_path`, and a line break.
/// Nothing where the object cannot be written.
pub open spec fn log_line(original_path: Seq<char>, destination_path: Seq<char>) -> Option<
    Seq<char>,
> {
    match json_object_text(
        "original_path"@,
        original_path,
        "destination_path"@,
        destination_path,
    ) {
        Some(json) => Some(json.push('\n')),
        None => None,
    }
}

/// The log line made of an encoded record: the text and a line break;
/// `LogAppendFailed` where the encoding failed.
pub fn line_of(encoded: Result<String, serde_json::Error>) -> (line: Result<String, MoveError>)
    ensures
        match encoded {
            Ok(json) => line matches Ok(text) && text@ == json@.push('\n'),
            Err(_) => line == Err::<String, MoveError>(MoveError::LogAppendFailed),
        },
{
    match encoded {
        Ok(json) => {
            let mut text = json;
            text.push('\n');
            Ok(text)
        },
        Err(_) => Err(MoveError::LogAppendFailed),
    }
}

/// The line to append to the log for a move from `original_path` to
/// `destination_path`; `LogAppendFailed` where the record cannot be
/// written.
pub fn log_move_operation(original_path: &str, destination_path: &str) -> (line: Result<
    String,
    MoveError,
>)
    ensures
        match line {
            Ok(text) => log_line(original_path@, destination_path@) == Some(text@),
            Err(e) => e == MoveError::LogAppendFailed && log_line(
                original_path@,
                destination_path@,
            ) is None,
        },
{
    line_of(encode_members("original_path", original_path, "destination_path", destination_path))
}

/// The record that a log line holds: its members `original_path` and
/// `destination_path`. Nothing where the line is not JSON, or is no object
/// that has both members as strings.
pub open spec fn record_in(line: Seq<char>) -> Option<RecordView> {
    match (
        json_member_text(line, "original_path"@),
        json_member_text(line, "destination_path"@),
    ) {
        (Some(Some(original_path)), Some(Some(destination_path))) => Some(
            RecordView { original_path, destination_path },
        ),
        _ => None,
    }
}

/// The record made of what was found in a line under the two keys; nothing
/// where the line was not JSON or lacks one of the two paths.
pub fn record_of(
    original_path: Result<Option<String>, serde_json::Error>,
    destination_path: Result<Option<String>, serde_json::Error>,
) -> (record: Option<LogRecord>)
    ensures
        match (original_path, destination_path) {
            (Ok(Some(original)), Ok(Some(destination))) => record == Some(
                LogRecord { original_path: original, destination_path: destination },
            ),
            _ => record is None,
        },
{
    match (original_path, destination_path) {
        (Ok(Some(original)), Ok(Some(destination))) => Some(
            LogRecord { original_path: original, destination_path: destination },
        ),
        _ => None,
    }
}

/// The record that `line` holds.
pub fn parse_record(line: &str) -> (record: Option<LogRecord>)
    ensures
        match record {
            Some(found) => record_in(line@) == Some(found@),
            None => record_in(line@) is None,
        },
{
    let original_path = decode_member(line, "original_path");
    let destination_path = decode_member(line, "destination_path");
    record_of(original_path, destination_path)
}

/// Where a move stands: the next thing to do, or how it ended.
#[derive(Debug, PartialEq, Eq)]
pub enum MoveStage {
    /// The folder for the file is to be made.
    MakeDirectory,
    /// The file is to be moved.
    Rename,
    /// The move is to be logged with this line.
    Log { line: String },
    /// Nothing is left to do.
    Finished(Result<(), MoveError>),
}

/// What is to be done next for a move.
#[derive(Debug, PartialEq, Eq)]
pub enum MoveAction {
    /// Make the directory `path` and those above it that are missing.
    CreateDirectories { path: String },
    /// Move the file at `from` to `to`.
    Rename { from: String, to: String },
    /// Append `line` to the log.
    AppendLog { line: String },
    /// Stop: the move has ended in this way.
    Finished(Result<(), MoveError>),
}

/// A move in progress: what is moved, the folder it goes to, and where
/// the move stands.
#[derive(Debug, PartialEq, Eq)]
pub struct MoveRun {
    pub plan: PlannedMove,
    pub folder: String,
    pub stage: MoveStage,
}

/// A stage over texts.
pub enum StageView {
    MakeDirectory,
    Rename,
    Log { line: Seq<char> },
    Finished(Result<(), MoveError>),
}

/// An action over texts.
pub enum MoveActionView {
    CreateDirectories { path: Seq<char> },
    Rename { from: Seq<char>, to: Seq<char> },
    AppendLog { line: Seq<char> },
    Finished(Result<(), MoveError>),
}

/// A move in progress over texts.
pub struct MoveRunView {
    pub source: Seq<char>,
    pub destination: Seq<char>,
    pub folder: Seq<char>,
    pub stage: StageView,
}

impl View for MoveStage {
    type V = StageView;

    open spec fn view(&self) -> StageView {
        match self {
            MoveStage::MakeDirectory => StageView::MakeDirectory,
            MoveStage::Rename => StageView::Rename,
            MoveStage::Log { line } => StageView::Log { line: line@ },
            MoveStage::Finished(outcome) => StageView::Finished(*outcome),
        }
    }
}

impl View for MoveAction {
    type V = MoveActionView;

    open spec fn view(&self) -> MoveActionView {
        match self {
            MoveAction::CreateDirectories { path } => MoveActionView::CreateDirectories {
                path: path@,
            },
            MoveAction::Rename { from, to } => MoveActionView::Rename { from: from@, to: to@ },
            MoveAction::AppendLog { line } => MoveActionView::AppendLog { line: line@ },
            MoveAction::Finished(outcome) => MoveActionView::Finished(*outcome),
        }
    }
}

impl View for MoveRun {
    type V = MoveRunView;

    open spec fn view(&self) -> MoveRunView {
        MoveRunView {
            source: self.plan.source@,
            destination: self.plan.destination@,
            folder: self.folder@,
            stage: self.stage@,
        }
    }
}

impl MoveRunView {
    /// What is to be done at this stage.
    pub open spec fn action(self) -> MoveActionView {
        match self.stage {
            StageView::MakeDirectory => MoveActionView::CreateDirectories { path: self.folder },
            StageView::Rename => MoveActionView::Rename {
                from: self.source,
                to: self.destination,
            },
            StageView::Log { line } => MoveActionView::AppendLog { line },
            StageView::Finished(outcome) => MoveActionView::Finished(outcome),
        }
    }

    /// The stage that follows when the action of this stage ended with
    /// `reply`. The folder comes first, then the move, then the log; the
    /// first action that does not succeed ends the move with its error,
    /// and so does a record that cannot be written. A move that has ended
    /// stays as it is.
    pub open spec fn next_stage(self, reply: Reply) -> StageView {
        match self.stage {
            StageView::MakeDirectory => if reply == Reply::Yes {
                StageView::Rename
            } else {
                StageView::Finished(Err(MoveError::DirectoryCreateFailed))
            },
            StageView::Rename => if reply == Reply::Yes {
                match log_line(self.source, self.destination) {
                    Some(line) => StageView::Log { line },
                    None => StageView::Finished(Err(MoveError::LogAppendFailed)),
                }
            } else {
                StageView::Finished(Err(MoveError::MoveFailed))
            },
            StageView::Log { line } => if reply == Reply::Yes {
                StageView::Finished(Ok(()))
            } else {
                StageView::Finished(Err(MoveError::LogAppendFailed))
            },
            StageView::Finished(outcome) => StageView::Finished(outcome),
        }
    }

    /// The move after its action ended with `reply`.
    pub open spec fn next(self, reply: Reply) -> MoveRunView {
        MoveRunView { stage: self.next_stage(reply), ..self }
    }
}

/// A move is logged only after its file was moved, and ends well only
/// after it was logged.
pub proof fn lemma_log_follows_move(run: MoveRunView, reply: Reply)
    ensures
        run.next(reply).stage is Log ==> run.stage is Rename && reply == Reply::Yes,
        run.next(reply).stage == StageView::Finished(Ok(())) ==> (run.stage is Log && reply
            == Reply::Yes) || run.stage == StageView::Finished(Ok(())),
        run.stage is MakeDirectory && reply != Reply::Yes ==> run.next(reply).stage
            == StageView::Finished(Err(MoveError::DirectoryCreateFailed)),
{
}

impl MoveRun {
    /// The move of `plan` into `folder`, with everything still to do.
    pub fn new(plan: PlannedMove, folder: String) -> (run: MoveRun)
        ensures
            run@ == (MoveRunView {
                source: plan.source@,
                destination: plan.destination@,
                folder: folder@,
                stage: StageView::MakeDirectory,
            }),
    {
        MoveRun { plan, folder, stage: MoveStage::MakeDirectory }
    }

    /// What is to be done next.
    pub fn action(&self) -> (action: MoveAction)
        ensures
            action@ == self@.action(),
    {
        match &self.stage {
            MoveStage::MakeDirectory => MoveAction::CreateDirectories { path: self.folder.clone() },
            MoveStage::Rename => MoveAction::Rename {
                from: self.plan.source.clone(),
                to: self.plan.destination.clone(),
            },
            MoveStage::Log { line } => MoveAction::AppendLog { line: line.clone() },
            MoveStage::Finished(outcome) => MoveAction::Finished(*outcome),
        }
    }

    /// Takes note of how the action ended and goes on to the next stage.
    pub fn advance(&mut self, reply: Reply)
        ensures
            final(self)@ == old(self)@.next(reply),
    {
        let done = match reply {
            Reply::Yes => true,
            _ => false,
        };
        let stage = match &self.stage {
            MoveStage::MakeDirectory => {
                if done {
                    MoveStage::Rename
                } else {
                    MoveStage::Finished(Err(MoveError::DirectoryCreateFailed))
                }
            },
            MoveStage::Rename => {
                if done {
                    match log_move_operation(
                        self.plan.source.as_str(),
                        self.plan.destination.as_str(),
                    ) {
                        Ok(line) => MoveStage::Log { line },
                        Err(e) => MoveStage::Finished(Err(e)),
                    }
                } else {
                    MoveStage::Finished(Err(MoveError::MoveFailed))
                }
            },
            MoveStage::Log { line } => {
                if done {
                    MoveStage::Finished(Ok(()))
                } else {
                    MoveStage::Finished(Err(MoveError::LogAppendFailed))
                }
            },
            MoveStage::Finished(outcome) => MoveStage::Finished(*outcome),
        };
        self.stage = stage;
    }
}

/// Whether a directory may be removed at all: the empty path and the root
/// never are.
pub open spec fn is_prunable(dir: Seq<char>) -> bool {
    dir.len() > 0 && dir != root()
}

/// The directories of `dirs` that may be removed, each once, in the order
/// in which they first occur.
pub open spec fn candidates(dirs: Seq<Seq<char>>) -> Seq<Seq<char>>
    decreases dirs.len(),
{
    if dirs.len() == 0 {
        Seq::<Seq<char>>::empty()
    } else {
        let before = candidates(dirs.drop_last());
        let dir = dirs.last();
        if !is_prunable(dir) || before.contains(dir) {
            before
        } else {
            before.push(dir)
        }
    }
}

/// `dir` put into `sorted` behind every directory that is at least as
/// deep.
pub open spec fn place(sorted: Seq<Seq<char>>, dir: Seq<char>) -> Seq<Seq<char>>
    decreases sorted.len(),
{
    if sorted.len() == 0 {
        seq![dir]
    } else if depth(sorted.last()) >= depth(dir) {
        sorted.push(dir)
    } else {
        place(sorted.drop_last(), dir).push(sorted.last())
    }
}

/// `dirs` with the deepest first; directories of one depth stay in the
/// order in which they came.
pub open spec fn deepest_first(dirs: Seq<Seq<char>>) -> Seq<Seq<char>>
    decreases dirs.len(),
{
    if dirs.len() == 0 {
        Seq::<Seq<char>>::empty()
    } else {
        place(deepest_first(dirs.drop_last()), dirs.last())
    }
}

/// The order in which directories are tried for removal: those of `dirs`
/// that may be removed, each once, a directory before those that enclose
/// it.
pub open spec fn prune_order(dirs: Seq<Seq<char>>) -> Seq<Seq<char>> {
    deepest_first(candidates(dirs))
}

/// Placing puts the directory at the position behind which everything is
/// less deep.
pub proof fn lemma_place(sorted: Seq<Seq<char>>, dir: Seq<char>, at: int)
    requires
        0 <= at <= sorted.len(),
        forall|j: int| at <= j < sorted.len() ==> depth(#[trigger] sorted[j]) < depth(dir),
        at == 0 || depth(sorted[at - 1]) >= depth(dir),
    ensures
        place(sorted, dir) == sorted.insert(at, dir),
    decreases sorted.len(),
{
    if sorted.len() == 0 {
        assert(sorted.insert(0, dir) =~= seq![dir]);
    } else if at == sorted.len() {
        assert(sorted.insert(at, dir) =~= sorted.push(dir));
    } else {
        assert(depth(sorted[sorted.len() - 1]) < depth(dir));
        lemma_place(sorted.drop_last(), dir, at);
        assert(sorted.drop_last().insert(at, dir).push(sorted.last()) =~= sorted.insert(at, dir));
    }
}

/// Placing keeps a list in order of depth, adds the directory and loses
/// none.
pub proof fn lemma_place_keeps(sorted: Seq<Seq<char>>, dir: Seq<char>)
    requires
        forall|i: int, j: int|
            0 <= i < j < sorted.len() ==> depth(sorted[i]) >= depth(sorted[j]),
    ensures
        place(sorted, dir).len() == sorted.len() + 1,
        forall|i: int, j: int|
            0 <= i < j < place(sorted, dir).len() ==> depth(place(sorted, dir)[i]) >= depth(
                place(sorted, dir)[j],
            ),
        place(sorted, dir).contains(dir),
        forall|x: Seq<char>|
            #![trigger place(sorted, dir).contains(x)]
            #![trigger sorted.contains(x)]
            place(sorted, dir).contains(x) <==> sorted.contains(x) || x == dir,
    decreases sorted.len(),
{
    let out = place(sorted, dir);
    if sorted.len() == 0 {
        assert(out[0] == dir);
    } else if depth(sorted.last()) >= depth(dir) {
        assert(out[sorted.len() as int] == dir);
        assert forall|x: Seq<char>| out.contains(x) <==> sorted.contains(x) || x == dir by {
            if sorted.contains(x) {
                let i = choose|i: int| 0 <= i < sorted.len() && sorted[i] == x;
                assert(out[i] == x);
            }
        }
    } else {
        let rest = sorted.drop_last();
        let inner = place(rest, dir);
        lemma_place_keeps(rest, dir);
        assert forall|x: Seq<char>| out.contains(x) <==> sorted.contains(x) || x == dir by {
            if out.contains(x) {
                let i = choose|i: int| 0 <= i < out.len() && out[i] == x;
                if i < inner.len() {
                    assert(inner.contains(x));
                    if rest.contains(x) {
                        let k = choose|k: int| 0 <= k < rest.len() && rest[k] == x;
                        assert(sorted[k] == x);
                    }
                } else {
                    assert(sorted[sorted.len() - 1] == x);
                }
            }
            if sorted.contains(x) {
                let i = choose|i: int| 0 <= i < sorted.len() && sorted[i] == x;
                if i < rest.len() {
                    assert(rest[i] == x);
                    assert(rest.contains(x));
                    assert(inner.contains(x));
                    let k = choose|k: int| 0 <= k < inner.len() && inner[k] == x;
                    assert(out[k] == x);
                } else {
                    assert(out[inner.len() as int] == x);
                }
            }
            if x == dir {
                assert(rest.contains(x) || x == dir);
                assert(inner.contains(x));
                let k = choose|k: int| 0 <= k < inner.len() && inner[k] == x;
                assert(out[k] == x);
            }
        }
        assert forall|i: int, j: int| 0 <= i < j < out.len() implies depth(out[i]) >= depth(
            out[j],
        ) by {
            if j == inner.len() {
                assert(inner.contains(inner[i]));
                if inner[i] != dir {
                    assert(rest.contains(inner[i]));
                    let k = choose|k: int| 0 <= k < rest.len() && rest[k] == inner[i];
                    assert(depth(sorted[k]) >= depth(sorted[sorted.len() - 1]));
                }
            }
        }
    }
}

/// The order of removal runs from the deepest directory to the least deep
/// and holds the directories it was given, no more and no fewer.
pub proof fn lemma_deepest_first(dirs: Seq<Seq<char>>)
    ensures
        deepest_first(dirs).len() == dirs.len(),
        forall|i: int, j: int|
            0 <= i < j < deepest_first(dirs).len() ==> depth(deepest_first(dirs)[i]) >= depth(
                deepest_first(dirs)[j],
            ),
        forall|x: Seq<char>| deepest_first(dirs).contains(x) <==> dirs.contains(x),
    decreases dirs.len(),
{
    if dirs.len() > 0 {
        let rest = dirs.drop_last();
        lemma_deepest_first(rest);
        lemma_place_keeps(deepest_first(rest), dirs.last());
        assert forall|x: Seq<char>| deepest_first(dirs).contains(x) <==> dirs.contains(x) by {
            if dirs.contains(x) {
                let i = choose|i: int| 0 <= i < dirs.len() && dirs[i] == x;
                if i < rest.len() {
                    assert(rest[i] == x);
                }
            }
            if rest.contains(x) {
                let i = choose|i: int| 0 <= i < rest.len() && rest[i] == x;
                assert(dirs[i] == x);
            }
            if x == dirs.last() {
                assert(dirs[dirs.len() - 1] == x);
            }
        }
    }
}

/// The order in which the directories `dirs` are to be tried for removal:
/// the empty path and the root are left out, no directory comes twice,
/// and the deepest come first.
pub fn remove_directories(dirs: &Vec<String>) -> (order: Vec<String>)
    ensures
        texts(order@) == prune_order(texts(dirs@)),
{
    proof {
        reveal_strlit("/");
        assert("/"@ == root());
    }
    let mut kept: Vec<String> = Vec::new();
    let mut i: usize = 0;
    assert(texts(dirs@).take(0) == Seq::<Seq<char>>::empty());
    while i < dirs.len()
        invariant
            i <= dirs.len(),
            "/"@ == root(),
            texts(kept@) == candidates(texts(dirs@).take(i as int)),
        decreases dirs.len() - i,
    {
        let dir = &dirs[i];
        proof {
            let now = texts(dirs@).take(i + 1);
            assert(now.drop_last() == texts(dirs@).take(i as int));
            assert(now.last() == dir@);
        }
        if !dir.as_str().is_empty() && !same_text(dir.as_str(), "/") && !has_text(
            &kept,
            dir.as_str(),
        ) {
            proof {
                lemma_texts_push(kept@, *dir);
            }
            kept.push(dir.clone());
        }
        i += 1;
    }
    assert(texts(dirs@).take(dirs@.len() as int) == texts(dirs@));
    let mut order: Vec<String> = Vec::new();
    let mut depths: Vec<usize> = Vec::new();
    let mut k: usize = 0;
    assert(texts(kept@).take(0) == Seq::<Seq<char>>::empty());
    while k < kept.len()
        invariant
            k <= kept.len(),
            order.len() == depths.len(),
            forall|j: int| 0 <= j < order.len() ==> depths@[j] == depth(#[trigger] texts(order@)[j]),
            texts(order@) == deepest_first(texts(kept@).take(k as int)),
        decreases kept.len() - k,
    {
        let dir = &kept[k];
        let deep = depth_of(dir.as_str());
        let mut at: usize = order.len();
        while at > 0 && depths[at - 1] < deep
            invariant
                at <= order.len(),
                order.len() == depths.len(),
                forall|j: int| at <= j < depths.len() ==> depths@[j] < deep,
            decreases at,
        {
            at -= 1;
        }
        proof {
            let now = texts(kept@).take(k + 1);
            assert(now.drop_last() == texts(kept@).take(k as int));
            assert(now.last() == dir@);
            lemma_place(texts(order@), dir@, at as int);
        }
        let ghost before = texts(order@);
        order.insert(at, dir.clone());
        depths.insert(at, deep);
        proof {
            assert(texts(order@) =~= before.insert(at as int, dir@));
        }
        k += 1;
    }
    assert(texts(kept@).take(kept@.len() as int) == texts(kept@));
    order
}

/// The directory that holds `path`; the empty path where it has none.
pub open spec fn folder_of(path: Seq<char>) -> Seq<char> {
    match parent(path) {
        Some(dir) => dir,
        None => Seq::<char>::empty(),
    }
}

/// Moves the file at `source_path` to `destination_path`: a dry run adds
/// the destination to its tree and asks for nothing; a live run hands back
/// the move, with the file still to be moved and the move still to be
/// logged.
pub fn organize_file(source_path: &str, destination_path: &str, mode: &mut ProcessingMode) -> (run:
    Option<MoveRun>)
    requires
        old(mode).wf(),
    ensures
        final(mode).wf(),
        match *old(mode) {
            ProcessingMode::DryRun(tree) => {
                &&& *final(mode) matches ProcessingMode::DryRun(grown)
                &&& grown.wf()
                &&& grown@ == tree@.insert(components(destination_path@))
                &&& run is None
            },
            ProcessingMode::Live => {
                &&& *final(mode) is Live
                &&& run matches Some(started)
                &&& started@ == (MoveRunView {
                    source: source_path@,
                    destination: destination_path@,
                    folder: folder_of(destination_path@),
                    stage: StageView::Rename,
                })
            },
        },
{
    match mode {
        ProcessingMode::DryRun(tree) => {
            let parts = split_components(destination_path);
            tree.add_path(parts.as_slice());
            None
        },
        ProcessingMode::Live => {
            let folder = match parent_of(destination_path) {
                Some(dir) => dir,
                None => String::new(),
            };
            Some(
                MoveRun {
                    plan: PlannedMove {
                        source: String::from_str(source_path),
                        destination: String::from_str(destination_path),
                    },
                    folder,
                    stage: MoveStage::Rename,
                },
            )
        },
    }
}

} // verus!
