//! Where the daily logs are kept: one file per calendar day under the
//! application's data directory, named by the day's ISO date. The parts of
//! a path are joined by a backslash.
//!
//! Nothing here touches a file. To replace a log, `save_steps` lists what
//! is to be done to the files, in order: the new text is written beside
//! the log and then renamed onto it. The caller carries the steps out.
//! What the steps do is stated over a model of the files, a map from paths
//! to texts, in which a write that is cut short leaves any text whatever
//! under its path and a rename happens entirely or not at all.

use vstd::prelude::*;
use vstd::string::StringExecFns;
use crate::date::{is_calendar_day, iso_date_text, lemma_iso_date_text_injective, Date};

verus! {

/// The directory of the logs below the data root `root`.
pub open spec fn data_dir_of(root: Seq<char>) -> Seq<char> {
    root + "\\digital-wellbeing\\Data"@
}

/// The name of the file that holds the log of a day.
pub open spec fn log_file_name_of(year: int, month: int, day: int) -> Seq<char> {
    iso_date_text(year, month, day) + ".log"@
}

/// The path of the file that holds the log of a day.
pub open spec fn log_path_of(root: Seq<char>, year: int, month: int, day: int) -> Seq<char> {
    data_dir_of(root) + "\\"@ + log_file_name_of(year, month, day)
}

/// The path under which a new text for a day is written before it takes
/// the place of the old one.
pub open spec fn temp_path_of(root: Seq<char>, year: int, month: int, day: int) -> Seq<char> {
    log_path_of(root, year, month, day) + ".tmp"@
}

/// The directory of the logs below `root`.
pub fn data_dir(root: &str) -> (dir: String)
    ensures
        dir@ == data_dir_of(root@),
{
    String::from_str(root).concat("\\digital-wellbeing\\Data")
}

/// The name of the file that holds the log of `date`.
pub fn log_file_name(date: &Date) -> (name: String)
    ensures
        name@ == log_file_name_of(date@.0, date@.1, date@.2),
{
    date.iso_text().concat(".log")
}

/// The path of the file that holds the log of `date`.
pub fn log_path(root: &str, date: &Date) -> (path: String)
    ensures
        path@ == log_path_of(root@, date@.0, date@.1, date@.2),
{
    let name = log_file_name(date);
    data_dir(root).concat("\\").concat(name.as_str())
}

/// The path under which a new text for `date` is written first.
pub fn temp_path(root: &str, date: &Date) -> (path: String)
    ensures
        path@ == temp_path_of(root@, date@.0, date@.1, date@.2),
{
    log_path(root, date).concat(".tmp")
}

/// Different days have different logs, and no day's temporary file is the
/// log of any day.
pub proof fn lemma_days_have_their_own_files(
    root: Seq<char>,
    a: (int, int, int),
    b: (int, int, int),
)
    requires
        is_calendar_day(a.0, a.1, a.2),
        is_calendar_day(b.0, b.1, b.2),
    ensures
        a != b ==> log_path_of(root, a.0, a.1, a.2) != log_path_of(root, b.0, b.1, b.2),
        temp_path_of(root, a.0, a.1, a.2) != log_path_of(root, b.0, b.1, b.2),
{
    reveal_strlit(".log");
    reveal_strlit(".tmp");
    let front = data_dir_of(root) + "\\"@;
    let x = iso_date_text(a.0, a.1, a.2);
    let y = iso_date_text(b.0, b.1, b.2);
    let p = log_path_of(root, a.0, a.1, a.2);
    let q = log_path_of(root, b.0, b.1, b.2);
    let t = temp_path_of(root, a.0, a.1, a.2);
    assert(p =~= front + x + ".log"@);
    assert(q =~= front + y + ".log"@);
    assert(q.last() == 'g');
    assert(t.last() == 'p');
    if a != b && p == q {
        assert(x.len() == y.len());
        assert forall|i: int| 0 <= i < x.len() implies x[i] == y[i] by {
            assert(p[front.len() + i] == x[i]);
            assert(q[front.len() + i] == y[i]);
        }
        assert(x =~= y);
        lemma_iso_date_text_injective(a, b);
    }
}

/// One thing to do to the files.
#[derive(Clone, Debug, PartialEq, Eq)]
pub enum FileStep {
    /// Create the directory `path` and those above it, where they are
    /// missing.
    MakeDir { path: String },
    /// Write `text` to the file `path`, in place of what it held.
    Write { path: String, text: String },
    /// Rename the file `from` to `to`, in place of what `to` held.
    Rename { from: String, to: String },
}

/// A step, as contracts speak of it.
pub enum FileStepView {
    MakeDir { path: Seq<char> },
    Write { path: Seq<char>, text: Seq<char> },
    Rename { from: Seq<char>, to: Seq<char> },
}

impl View for FileStep {
    type V = FileStepView;

    open spec fn view(&self) -> FileStepView {
        match *self {
            FileStep::MakeDir { path } => FileStepView::MakeDir { path: path@ },
            FileStep::Write { path, text } => FileStepView::Write { path: path@, text: text@ },
            FileStep::Rename { from, to } => FileStepView::Rename { from: from@, to: to@ },
        }
    }
}

/// The files after `step` was carried out in full.
pub open spec fn after_step(files: Map<Seq<char>, Seq<char>>, step: FileStepView) -> Map<
    Seq<char>,
    Seq<char>,
> {
    match step {
        FileStepView::MakeDir { path } => files,
        FileStepView::Write { path, text } => files.insert(path, text),
        FileStepView::Rename { from, to } => if files.dom().contains(from) {
            files.remove(from).insert(to, files[from])
        } else {
            files
        },
    }
}

/// The files after `step` was cut short: a write has left `partial` under
/// its path; a rename or a directory not yet made has left the files as
/// they were.
pub open spec fn cut_short(
    files: Map<Seq<char>, Seq<char>>,
    step: FileStepView,
    partial: Seq<char>,
) -> Map<Seq<char>, Seq<char>> {
    match step {
        FileStepView::Write { path, text } => files.insert(path, partial),
        _ => files,
    }
}

/// The steps that replace the log of a day by `text`.
pub open spec fn save_plan(root: Seq<char>, year: int, month: int, day: int, text: Seq<char>) -> Seq<
    FileStepView,
> {
    seq![
        FileStepView::MakeDir { path: data_dir_of(root) },
        FileStepView::Write { path: temp_path_of(root, year, month, day), text: text },
        FileStepView::Rename {
            from: temp_path_of(root, year, month, day),
            to: log_path_of(root, year, month, day),
        },
    ]
}

/// The files after the first `done` steps of `plan` were carried out.
pub open spec fn after_steps(
    files: Map<Seq<char>, Seq<char>>,
    plan: Seq<FileStepView>,
    done: nat,
) -> Map<Seq<char>, Seq<char>>
    decreases done,
{
    if done == 0 || done > plan.len() {
        files
    } else {
        after_step(after_steps(files, plan, (done - 1) as nat), plan[done - 1])
    }
}

/// The steps that replace the log of `date` by `text`: make the directory,
/// write the text beside the log, rename it onto the log.
pub fn save_steps(root: &str, date: &Date, text: &str) -> (steps: Vec<FileStep>)
    ensures
        steps@.map_values(|step: FileStep| step@) == save_plan(
            root@,
            date@.0,
            date@.1,
            date@.2,
            text@,
        ),
{
    let mut steps: Vec<FileStep> = Vec::new();
    steps.push(FileStep::MakeDir { path: data_dir(root) });
    steps.push(FileStep::Write { path: temp_path(root, date), text: String::from_str(text) });
    steps.push(FileStep::Rename { from: temp_path(root, date), to: log_path(root, date) });
    assert(steps@.map_values(|step: FileStep| step@) =~= save_plan(
        root@,
        date@.0,
        date@.1,
        date@.2,
        text@,
    ));
    steps
}

/// Whether two states of the files agree on `path`: it is in both or in
/// neither, and where it is, it holds the same text.
pub open spec fn same_at(
    a: Map<Seq<char>, Seq<char>>,
    b: Map<Seq<char>, Seq<char>>,
    path: Seq<char>,
) -> bool {
    a.dom().contains(path) == b.dom().contains(path) && (a.dom().contains(path) ==> a[path]
        == b[path])
}

/// Replacing a log is all or nothing, and touches no other day.
///
/// Whether the steps of `save_plan` are stopped after any number of them,
/// or one of them is cut short, the log of the day is as it was before;
/// once all are done it holds the new text. At every such point the log of
/// every other day is as it was.
pub proof fn lemma_save_is_all_or_nothing(
    files: Map<Seq<char>, Seq<char>>,
    root: Seq<char>,
    date: (int, int, int),
    text: Seq<char>,
    done: nat,
    partial: Seq<char>,
    other: (int, int, int),
)
    requires
        is_calendar_day(date.0, date.1, date.2),
        is_calendar_day(other.0, other.1, other.2),
        done <= 3,
    ensures
        ({
            let plan = save_plan(root, date.0, date.1, date.2, text);
            let log = log_path_of(root, date.0, date.1, date.2);
            let elsewhere = log_path_of(root, other.0, other.1, other.2);
            let stopped = after_steps(files, plan, done);
            let broken = if done < 3 {
                cut_short(stopped, plan[done as int], partial)
            } else {
                stopped
            };
            &&& done < 3 ==> same_at(stopped, files, log) && same_at(broken, files, log)
            &&& done == 3 ==> stopped.dom().contains(log) && stopped[log] == text
            &&& other != date ==> same_at(stopped, files, elsewhere) && same_at(
                broken,
                files,
                elsewhere,
            )
        }),
{
    let plan = save_plan(root, date.0, date.1, date.2, text);
    lemma_days_have_their_own_files(root, date, date);
    lemma_days_have_their_own_files(root, date, other);
    lemma_days_have_their_own_files(root, other, date);
    reveal_with_fuel(after_steps, 4);
    assert(plan.len() == 3);
}

} // verus!
