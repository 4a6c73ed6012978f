//! The week scanner's decisions: which folders to create and to scan, and
//! the summary of one week.

use vstd::prelude::*;
use vstd::string::StringExecFns;
use crate::classify::Config;
use crate::markers::{count_exercises_completed, count_tasks_assigned, solution_count, task_count, views_of};
use crate::text::{as_usize, chars_of, contains, contains_chars, same_chars};

verus! {

broadcast use vstd::string::to_string_from_display_ensures_for_str;

/// How far a week has got: tasks assigned, exercises done, and what is left.
/// `todo` is negative where more exercises are logged than tasks were found.
#[derive(Clone, Copy, Debug, PartialEq, Eq, Structural)]
pub struct ProgressSummary {
    pub tasks_assigned: usize,
    pub solutions_completed: usize,
    pub todo: i128,
}

impl ProgressSummary {
    /// Whether `todo` is what is left of the tasks after the solutions.
    pub open spec fn wf(&self) -> bool {
        self.todo == self.tasks_assigned - self.solutions_completed
    }

    /// The summary of a week with `tasks_assigned` tasks and
    /// `solutions_completed` exercises done.
    pub fn new(tasks_assigned: usize, solutions_completed: usize) -> (r: ProgressSummary)
        ensures
            r.wf(),
            r.tasks_assigned == tasks_assigned,
            r.solutions_completed == solutions_completed,
    {
        ProgressSummary {
            tasks_assigned,
            solutions_completed,
            todo: tasks_assigned as i128 - solutions_completed as i128,
        }
    }
}

/// The tasks assigned by a week's task sheet: none where there is no sheet.
pub open spec fn assigned(task_text: Option<Seq<char>>, markers: Seq<Seq<char>>) -> nat {
    match task_text {
        None => 0,
        Some(t) => task_count(t, markers),
    }
}

/// The exercises done in a week's solution document: none where there is
/// no document.
pub open spec fn completed(lines: Option<Seq<Seq<char>>>, marker: Seq<char>) -> nat {
    match lines {
        None => 0,
        Some(ls) => solution_count(ls, marker),
    }
}

/// Sums up one week from the text of its task sheet and the lines of its
/// solution document, either of which may be missing. `None` only where the
/// number of tasks does not fit in `usize`.
pub fn week_summary(
    task_text: Option<&str>,
    solution_lines: Option<&Vec<String>>,
    config: &Config,
) -> (r: Option<ProgressSummary>)
    ensures
        r is Some <==> assigned(
            match task_text {
                None => None,
                Some(t) => Some(t@),
            },
            views_of(config.task_markers@),
        ) <= usize::MAX,
        r matches Some(s) ==> {
            &&& s.wf()
            &&& s.tasks_assigned == assigned(
                match task_text {
                    None => None,
                    Some(t) => Some(t@),
                },
                views_of(config.task_markers@),
            )
            &&& s.solutions_completed == completed(
                match solution_lines {
                    None => None,
                    Some(ls) => Some(views_of(ls@)),
                },
                config.solution_marker@,
            )
        },
{
    let tasks: usize = match task_text {
        None => 0,
        Some(t) => match count_tasks_assigned(t, &config.task_markers) {
            None => {
                return None;
            },
            Some(n) => n,
        },
    };
    let solutions: usize = match solution_lines {
        None => 0,
        Some(ls) => count_exercises_completed(ls, config.solution_marker.as_str()),
    };
    Some(ProgressSummary::new(tasks, solutions))
}

/// Whether a directory entry named `name` is taken for a course or week
/// folder: names with a dot are taken for files.
pub open spec fn is_folder_name(name: Seq<char>) -> bool {
    !contains(name, seq!['.'])
}

/// Whether an entry named `name` is taken for a course or week folder.
pub fn is_folder_entry(name: &str) -> (r: bool)
    ensures
        r == is_folder_name(name@),
{
    let dot: Vec<char> = vec!['.'];
    assert(dot@ =~= seq!['.']);
    !contains_chars(&chars_of(name), &dot)
}

/// Whether the week folder named `name` is the one to scan, the folder of
/// the week named `target`.
pub fn should_scan_week(name: &str, target: &str) -> (r: bool)
    ensures
        r == (is_folder_name(name@) && name@ == target@),
{
    is_folder_entry(name) && same_chars(&chars_of(name), &chars_of(target))
}

/// The path of the week folder named `week` in the course folder at
/// `course`.
pub open spec fn week_path_of(course: Seq<char>, week: Seq<char>) -> Seq<char> {
    course + seq!['/'] + week
}

/// The path of the week folder named `week` in the course folder at
/// `course_path`.
pub fn week_folder_path(course_path: &str, week: &str) -> (r: String)
    ensures
        r@ == week_path_of(course_path@, week@),
{
    let mut path: String = course_path.to_string();
    path.append("/");
    proof {
        reveal_strlit("/");
    }
    path.append(week);
    path
}

/// An entry directly under a semester folder, as the walk found it.
#[derive(Debug)]
pub struct CourseEntry {
    /// The entry's file name.
    pub name: String,
    /// The entry's path.
    pub path: String,
    /// Whether the week folder to be made already exists inside it.
    pub has_week_folder: bool,
}

/// Whether `e` is a course folder that still lacks the week folder.
pub open spec fn lacks_week_folder(e: CourseEntry) -> bool {
    is_folder_name(e.name@) && !e.has_week_folder
}

/// The paths of the week folders named `week` to create, one for each
/// course folder among `entries` that lacks it, in the order of `entries`.
pub open spec fn planned_folders(entries: Seq<CourseEntry>, week: Seq<char>) -> Seq<Seq<char>>
    decreases entries.len(),
{
    if entries.len() == 0 {
        Seq::empty()
    } else {
        let rest = planned_folders(entries.drop_last(), week);
        if lacks_week_folder(entries.last()) {
            rest.push(week_path_of(entries.last().path@, week))
        } else {
            rest
        }
    }
}

/// The week folders named `week` to create under a semester folder whose
/// entries are `entries`: one in each course folder that lacks it.
pub fn plan_week_folders(entries: &Vec<CourseEntry>, week: &str) -> (r: Vec<String>)
    ensures
        views_of(r@) == planned_folders(entries@, week@),
{
    let mut out: Vec<String> = Vec::new();
    let mut i: usize = 0;
    while i < entries.len()
        invariant
            i <= entries.len(),
            views_of(out@) == planned_folders(entries@.take(i as int), week@),
        decreases entries.len() - i,
    {
        let e: &CourseEntry = &entries[i];
        proof {
            assert(entries@.take(i + 1).drop_last() =~= entries@.take(i as int));
            assert(entries@.take(i + 1).last() == *e);
        }
        if is_folder_entry(e.name.as_str()) && !e.has_week_folder {
            let path: String = week_folder_path(e.path.as_str(), week);
            let ghost before = out@;
            out.push(path);
            assert(views_of(out@) =~= views_of(before).push(path@));
        }
        i = i + 1;
    }
    assert(entries@.take(i as int) =~= entries@);
    out
}

/// Once the week folders that were planned exist, planning again asks for
/// none: making the week folders twice makes nothing the second time.
pub proof fn lemma_plan_week_folders_idempotent(
    before: Seq<CourseEntry>,
    after: Seq<CourseEntry>,
    week: Seq<char>,
)
    requires
        after.len() == before.len(),
        forall|i: int|
            0 <= i < before.len() ==> (#[trigger] after[i]).name@ == before[i].name@,
        forall|i: int|
            0 <= i < before.len() && (before[i].has_week_folder || lacks_week_folder(before[i]))
                ==> (#[trigger] after[i]).has_week_folder,
    ensures
        planned_folders(after, week) == Seq::<Seq<char>>::empty(),
    decreases before.len(),
{
    if before.len() > 0 {
        let n = before.len() - 1;
        assert(after[n].name@ == before[n].name@);
        assert forall|i: int| 0 <= i < n implies (#[trigger] after.drop_last()[i]).name@
            == before.drop_last()[i].name@ by {
            assert(after[i].name@ == before[i].name@);
        }
        assert forall|i: int|
            0 <= i < n && (before.drop_last()[i].has_week_folder || lacks_week_folder(
                before.drop_last()[i],
            )) implies (#[trigger] after.drop_last()[i]).has_week_folder by {
            assert(after[i].name@ == before[i].name@);
        }
        lemma_plan_week_folders_idempotent(before.drop_last(), after.drop_last(), week);
    }
}

/// The larger of the tasks assigned and the exercises done.
pub open spec fn larger_count(s: &ProgressSummary) -> int {
    if s.tasks_assigned >= s.solutions_completed {
        s.tasks_assigned as int
    } else {
        s.solutions_completed as int
    }
}

/// The heights of a progress chart's bars and the top of its scale: the
/// tasks left (none where more were done than assigned), the exercises done,
/// and one above the larger of tasks and exercises (the larger itself
/// where it is `usize::MAX`).
pub fn chart_bars(s: &ProgressSummary) -> (r: (usize, usize, usize))
    requires
        s.wf(),
    ensures
        r.0 as int == if s.todo > 0 { s.todo as int } else { 0 },
        r.1 == s.solutions_completed,
        r.2 as int == if larger_count(s) < usize::MAX {
            larger_count(s) + 1
        } else {
            larger_count(s)
        },
{
    let todo: usize = if s.tasks_assigned > s.solutions_completed {
        s.tasks_assigned - s.solutions_completed
    } else {
        0
    };
    let larger: usize = if s.tasks_assigned >= s.solutions_completed {
        s.tasks_assigned
    } else {
        s.solutions_completed
    };
    let top: usize = if larger < usize::MAX {
        larger + 1
    } else {
        larger
    };
    (todo, s.solutions_completed, top)
}

} // verus!
