//! Telling task sheets and solution documents apart by their file names.

use vstd::prelude::*;
use crate::markers::views_of;
use crate::text::{chars_of, contains, contains_chars, lowercase, lowered};

verus! {

broadcast use vstd::string::to_string_from_display_ensures_for_str;

/// The tokens that a deployment configures for its courses.
#[derive(Debug)]
pub struct Config {
    /// A file whose lowered name holds one of these is a task sheet.
    pub task_identifiers: Vec<String>,
    /// A file whose lowered name holds one of these is a solution document.
    pub solution_identifiers: Vec<String>,
    /// Each occurrence of one of these in a task sheet is one task.
    pub task_markers: Vec<String>,
    /// Each line of a solution document that holds this is one exercise done.
    pub solution_marker: String,
}

impl Config {
    /// The configuration for LaTeX solution documents: any `.tex` file is a
    /// solution document and each `\begin{exercise}` starts a written-up
    /// exercise. No task identifiers or task markers are set.
    pub fn latex() -> (r: Config)
        ensures
            r.task_identifiers@.len() == 0,
            r.solution_identifiers@.len() == 1,
            r.solution_identifiers@[0]@ == ".tex"@,
            r.task_markers@.len() == 0,
            r.solution_marker@ == "begin{exercise}"@,
    {
        let mut solution_identifiers: Vec<String> = Vec::new();
        solution_identifiers.push(".tex".to_string());
        Config {
            task_identifiers: Vec::new(),
            solution_identifiers,
            task_markers: Vec::new(),
            solution_marker: "begin{exercise}".to_string(),
        }
    }
}

impl Config {
    /// Whether task sheets are counted at all. With no task markers every
    /// week counts zero tasks, which then says nothing of the week.
    pub fn counts_tasks(&self) -> (r: bool)
        ensures
            r == (self.task_markers@.len() > 0),
    {
        self.task_markers.len() > 0
    }
}

/// Whether a walk over a week folder enters an entry named `name` at depth
/// `depth`: the folder itself always, anything else unless its name starts
/// with a dot. A name that is not valid Unicode is not entered.
pub open spec fn entered(name: Option<Seq<char>>, depth: nat) -> bool {
    match name {
        None => false,
        Some(s) => depth == 0 || !(s.len() > 0 && s[0] == '.'),
    }
}

/// Whether a walk over a week folder enters the entry named `name` at
/// `depth` below the folder.
pub fn is_not_hidden(name: Option<&str>, depth: usize) -> (r: bool)
    ensures
        r == entered(
            match name {
                None => None,
                Some(s) => Some(s@),
            },
            depth as nat,
        ),
{
    match name {
        None => false,
        Some(s) => {
            let chars: Vec<char> = chars_of(s);
            depth == 0 || !(chars.len() > 0 && chars[0] == '.')
        },
    }
}

/// Whether the lowered name `lowered` holds one of `ids`.
pub open spec fn holds_any(lowered: Seq<char>, ids: Seq<Seq<char>>) -> bool {
    exists|k: int| 0 <= k < ids.len() && contains(lowered, #[trigger] ids[k])
}

/// Whether a file named `name` is picked out by one of `ids`.
pub open spec fn identified(name: Seq<char>, ids: Seq<Seq<char>>) -> bool {
    holds_any(lowered(name), ids)
}

/// The position in `names` of the last name that one of `ids` picks out.
pub open spec fn last_match(names: Seq<Seq<char>>, ids: Seq<Seq<char>>) -> Option<usize>
    decreases names.len(),
{
    if names.len() == 0 {
        None
    } else if identified(names.last(), ids) {
        Some((names.len() - 1) as usize)
    } else {
        last_match(names.drop_last(), ids)
    }
}

/// Whether the file named `name` is picked out by one of `ids`, compared
/// with the name in lower case.
pub fn matches_identifier(name: &str, ids: &Vec<String>) -> (r: bool)
    ensures
        r == identified(name@, views_of(ids@)),
{
    let ghost vs = views_of(ids@);
    let lower: Vec<char> = lowercase(&chars_of(name));
    let mut i: usize = 0;
    while i < ids.len()
        invariant
            i <= ids.len(),
            vs == views_of(ids@),
            lower@ == lowered(name@),
            forall|k: int| 0 <= k < i ==> !contains(lower@, #[trigger] vs[k]),
        decreases ids.len() - i,
    {
        let id: Vec<char> = chars_of(ids[i].as_str());
        if contains_chars(&lower, &id) {
            assert(contains(lower@, vs[i as int]));
            return true;
        }
        i = i + 1;
    }
    false
}

/// Which of a week folder's files serve as its task sheet and its solution
/// document, by their positions in the list of files.
#[derive(Clone, Copy, Debug, PartialEq, Eq, Structural)]
pub struct Classification {
    pub task: Option<usize>,
    pub solution: Option<usize>,
}

/// Picks the task sheet and the solution document out of the files of a
/// week folder, named `names` in the order the walk met them. Each role goes
/// to the last file that it matches; one file may take both.
pub fn classify(names: &Vec<String>, config: &Config) -> (r: Classification)
    ensures
        r.task == last_match(views_of(names@), views_of(config.task_identifiers@)),
        r.solution == last_match(views_of(names@), views_of(config.solution_identifiers@)),
{
    let ghost ns = views_of(names@);
    let ghost tids = views_of(config.task_identifiers@);
    let ghost sids = views_of(config.solution_identifiers@);
    let mut task: Option<usize> = None;
    let mut solution: Option<usize> = None;
    let mut i: usize = 0;
    while i < names.len()
        invariant
            i <= names.len(),
            ns == views_of(names@),
            tids == views_of(config.task_identifiers@),
            sids == views_of(config.solution_identifiers@),
            task == last_match(ns.take(i as int), tids),
            solution == last_match(ns.take(i as int), sids),
        decreases names.len() - i,
    {
        proof {
            assert(ns.take(i + 1).drop_last() =~= ns.take(i as int));
            assert(ns.take(i + 1).last() == names@[i as int]@);
        }
        let name: &str = names[i].as_str();
        if matches_identifier(name, &config.task_identifiers) {
            task = Some(i);
        }
        if matches_identifier(name, &config.solution_identifiers) {
            solution = Some(i);
        }
        i = i + 1;
    }
    assert(ns.take(i as int) =~= ns);
    Classification { task, solution }
}

/// Classifying the same files twice, with the same configuration, gives the
/// same result: the classification is a function of the names, in the order
/// the walk met them, and of the identifiers.
pub proof fn lemma_classify_deterministic(
    names: Seq<Seq<char>>,
    task_ids: Seq<Seq<char>>,
    solution_ids: Seq<Seq<char>>,
    first: Classification,
    second: Classification,
)
    requires
        first.task == last_match(names, task_ids),
        first.solution == last_match(names, solution_ids),
        second.task == last_match(names, task_ids),
        second.solution == last_match(names, solution_ids),
    ensures
        first == second,
{
}

} // verus!
