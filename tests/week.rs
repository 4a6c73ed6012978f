use weekly_progress::classify::{classify, is_not_hidden, matches_identifier, Classification, Config};
use weekly_progress::pdf::join_pages;
use weekly_progress::scan::{
    chart_bars, is_folder_entry, plan_week_folders, should_scan_week, week_folder_path, week_summary,
    CourseEntry, ProgressSummary,
};

fn strings(v: &[&str]) -> Vec<String> {
    v.iter().map(|s| s.to_string()).collect()
}

fn sheet_config() -> Config {
    Config {
        task_identifiers: strings(&["ub"]),
        solution_identifiers: strings(&[".tex"]),
        task_markers: strings(&["aufgabe"]),
        solution_marker: "begin{exercise}".to_string(),
    }
}

#[test]
fn latex_config() {
    let c = Config::latex();
    assert!(c.task_identifiers.is_empty());
    assert_eq!(c.solution_identifiers, strings(&[".tex"]));
    assert!(c.task_markers.is_empty());
    assert_eq!(c.solution_marker, "begin{exercise}");
}

#[test]
fn task_counting_configured() {
    assert!(!Config::latex().counts_tasks());
    assert!(sheet_config().counts_tasks());
}

#[test]
fn hidden_entries() {
    assert!(is_not_hidden(Some(".week"), 0));
    assert!(!is_not_hidden(Some(".git"), 1));
    assert!(is_not_hidden(Some("ub3.tex"), 1));
    assert!(!is_not_hidden(None, 0));
    assert!(is_not_hidden(Some(""), 2));
}

#[test]
fn identifiers_match_lowered_names() {
    assert!(matches_identifier("UB3.pdf", &strings(&["ub"])));
    assert!(matches_identifier("Notes.TEX", &strings(&[".tex"])));
    assert!(!matches_identifier("notes.txt", &strings(&[".tex"])));
    assert!(!matches_identifier("ub3.tex", &Vec::new()));
}

#[test]
fn classify_last_match_wins() {
    let names = strings(&["ub3.tex", "solution.tex", "notes.txt"]);
    let r = classify(&names, &sheet_config());
    assert_eq!(r, Classification { task: Some(0), solution: Some(1) });
    let names = strings(&["solution.tex", "ub3.tex"]);
    let r = classify(&names, &sheet_config());
    assert_eq!(r, Classification { task: Some(1), solution: Some(1) });
}

#[test]
fn classify_twice_gives_the_same() {
    let names = strings(&["ub3.tex", "solution.tex", "ub4.pdf", "a.txt"]);
    let config = sheet_config();
    assert_eq!(classify(&names, &config), classify(&names, &config));
}

#[test]
fn week_with_task_sheet_and_solution() {
    let names = strings(&["ub3.tex", "solution.tex"]);
    let config = sheet_config();
    let r = classify(&names, &config);
    assert_eq!(r.task, Some(0));
    assert_eq!(r.solution, Some(1));
    let task_text = "Aufgabe 1 ... Aufgabe 2 ... AUFGABE 3 ... auf gabe 4";
    let lines = strings(&[
        "\\begin{exercise}",
        "proof",
        "\\begin{exercise}",
        "\\end{exercise}",
        "\\begin{exercise}",
    ]);
    let s = week_summary(Some(task_text), Some(&lines), &config).unwrap();
    assert_eq!(s, ProgressSummary { tasks_assigned: 4, solutions_completed: 3, todo: 1 });
}

#[test]
fn week_with_no_matching_files() {
    let names = strings(&["notes.txt", "photo.png"]);
    let config = sheet_config();
    let r = classify(&names, &config);
    assert_eq!(r, Classification { task: None, solution: None });
    let s = week_summary(None, None, &config).unwrap();
    assert_eq!(s, ProgressSummary { tasks_assigned: 0, solutions_completed: 0, todo: 0 });
}

#[test]
fn negative_todo_is_kept() {
    let lines = strings(&["\\begin{exercise}", "\\begin{exercise}"]);
    let s = week_summary(Some("aufgabe"), Some(&lines), &sheet_config()).unwrap();
    assert_eq!(s, ProgressSummary { tasks_assigned: 1, solutions_completed: 2, todo: -1 });
    assert_eq!(chart_bars(&s), (0, 2, 3));
}

#[test]
fn summary_new_and_bars() {
    let s = ProgressSummary::new(5, 2);
    assert_eq!(s.todo, 3);
    assert_eq!(chart_bars(&s), (3, 2, 6));
    assert_eq!(chart_bars(&ProgressSummary::new(usize::MAX, 0)).2, usize::MAX);
}

#[test]
fn folder_entries_and_week_selection() {
    assert!(is_folder_entry("Analysis"));
    assert!(!is_folder_entry("todo.png"));
    assert!(should_scan_week("2025-03-17", "2025-03-17"));
    assert!(!should_scan_week("2025-03-10", "2025-03-17"));
    assert!(!should_scan_week("2025.03.17", "2025.03.17"));
}

#[test]
fn week_folder_paths() {
    assert_eq!(week_folder_path("SoSe25/Analysis", "2025-03-17"), "SoSe25/Analysis/2025-03-17");
}

fn entry(name: &str, has_week_folder: bool) -> CourseEntry {
    CourseEntry {
        name: name.to_string(),
        path: format!("SoSe25/{}", name),
        has_week_folder,
    }
}

#[test]
fn making_week_folders_twice() {
    let week = "2025-03-17";
    let first = vec![entry("Analysis", false), entry("notes.txt", false), entry("Algebra", true), entry("Topology", false)];
    let plan = plan_week_folders(&first, week);
    assert_eq!(plan, strings(&["SoSe25/Analysis/2025-03-17", "SoSe25/Topology/2025-03-17"]));
    let second = vec![entry("Analysis", true), entry("notes.txt", false), entry("Algebra", true), entry("Topology", true)];
    assert!(plan_week_folders(&second, week).is_empty());
}

#[test]
fn pages_are_joined_in_order() {
    let pages = vec![Some("Aufgabe 1".to_string()), Some("Aufgabe 2".to_string())];
    assert_eq!(join_pages(&pages), "Aufgabe 1Aufgabe 2");
    let pages = vec![Some("Aufgabe 1".to_string()), None];
    assert_eq!(join_pages(&pages), "");
    assert_eq!(join_pages(&Vec::new()), "");
}
