use heel::process_tracker::{
    should_kill, windows_taskkill_process_tree_args, windows_taskkill_process_tree_command_from_env,
    ProcessTracker, ECHILD,
};
use heel::python::{
    collect_python_install_candidates, known_windows_python_candidates, python_executable,
    resolve_python_interpreter, windows_python_search_roots, windows_store_python_alias, Candidate,
    InstallDirEntry,
};

#[test]
fn windows_store_python_aliases_are_rejected() {
    let alias = r"C:\Users\name\AppData\Local\Microsoft\WindowsApps\python.exe";
    assert!(windows_store_python_alias(alias));
}

#[test]
fn regular_python_installs_are_not_store_aliases() {
    assert!(!windows_store_python_alias(r"C:\Python312\python.exe"));
    assert!(!windows_store_python_alias("/usr/bin/python3"));
}

#[test]
fn windows_taskkill_args_include_tree_cleanup_flag() {
    assert_eq!(
        windows_taskkill_process_tree_args(42),
        [
            "/F".to_string(),
            "/T".to_string(),
            "/PID".to_string(),
            "42".to_string()
        ]
    );
}

#[test]
fn python_executable_lives_in_bin_or_scripts() {
    assert_eq!(python_executable("/venv", false), "/venv/bin/python");
    assert_eq!(python_executable("C:/venv", true), "C:/venv\\Scripts\\python.exe");
}

#[test]
fn tracker_register_then_unregister_forgets_the_pid() {
    let mut tracker = ProcessTracker::new();
    tracker.register(7);
    tracker.register(9);
    assert!(tracker.contains(7));
    tracker.unregister(7);
    assert!(!tracker.contains(7));
    assert!(tracker.contains(9));
    assert_eq!(tracker.take_all(), vec![9]);
    assert!(!tracker.contains(9));
}

#[test]
fn only_children_that_are_still_ours_are_killed() {
    assert!(should_kill(10, 0, 0));
    assert!(!should_kill(10, 10, 0));
    assert!(!should_kill(10, -1, ECHILD));
}

#[test]
fn windows_search_roots_follow_the_set_variables() {
    let roots = windows_python_search_roots(
        Some("C:/Users/a/AppData/Local".to_string()),
        Some("C:/Program Files".to_string()),
        None,
    );
    assert_eq!(roots, vec!["C:/Users/a/AppData/Local/Programs/Python", "C:/Program Files"]);
    let only_x86 = windows_python_search_roots(None, None, Some("C:/Program Files (x86)".to_string()));
    assert_eq!(only_x86, vec!["C:/Program Files (x86)"]);
    assert!(windows_python_search_roots(None, None, None).is_empty());
}

#[test]
fn install_candidates_are_python_directories() {
    let entries = vec![
        InstallDirEntry { name: "Python312".to_string(), is_dir: true },
        InstallDirEntry { name: "Git".to_string(), is_dir: true },
        InstallDirEntry { name: "python-notes.txt".to_string(), is_dir: false },
        InstallDirEntry { name: "python311".to_string(), is_dir: true },
    ];
    let mut found = vec!["earlier".to_string()];
    collect_python_install_candidates("C:/P", &entries, &mut found);
    assert_eq!(
        found,
        vec!["earlier", "C:/P/Python312/python.exe", "C:/P/python311/python.exe"]
    );
}

#[test]
fn known_candidates_are_tried_from_the_greatest_path_down() {
    let found = vec![
        "C:/P/Python311/python.exe".to_string(),
        "C:/Q/Python312/python.exe".to_string(),
        "C:/P/python312/python.exe".to_string(),
    ];
    assert_eq!(
        known_windows_python_candidates(found),
        vec!["C:/Q/Python312/python.exe", "C:/P/python312/python.exe", "C:/P/Python311/python.exe"]
    );
}

#[test]
fn known_candidates_equal_but_for_case_keep_the_later_first() {
    let found = vec!["C:/Python/python.exe".to_string(), "c:/python/python.exe".to_string()];
    assert_eq!(
        known_windows_python_candidates(found),
        vec!["c:/python/python.exe", "C:/Python/python.exe"]
    );
    assert!(known_windows_python_candidates(Vec::new()).is_empty());
}

#[test]
fn interpreter_on_path_wins_over_known_installs() {
    let on_path = vec![
        Candidate { path: r"C:\Users\a\AppData\Local\Microsoft\WindowsApps\python3.exe".to_string(), exists: true },
        Candidate { path: "/usr/bin/python".to_string(), exists: true },
    ];
    let known = vec![Candidate { path: "C:/P/Python312/python.exe".to_string(), exists: true }];
    assert_eq!(resolve_python_interpreter(&on_path, &known), Some("/usr/bin/python".to_string()));
    let missing = vec![Candidate { path: "/usr/bin/python3".to_string(), exists: false }];
    let known2 = vec![
        Candidate { path: "C:/Q/Python313/python.exe".to_string(), exists: false },
        Candidate { path: "C:/P/Python312/python.exe".to_string(), exists: true },
    ];
    assert_eq!(
        resolve_python_interpreter(&missing, &known2),
        Some("C:/P/Python312/python.exe".to_string())
    );
    assert_eq!(resolve_python_interpreter(&missing, &Vec::new()), None);
}

#[test]
fn test_python_executable_path() {
    let path = "/tmp/test-venv";
    assert_eq!(python_executable(path, false), "/tmp/test-venv/bin/python");
    assert_eq!(
        std::path::Path::new(&python_executable(path, true).replace('\\', "/")),
        std::path::Path::new("/tmp/test-venv/Scripts/python.exe")
    );
}

#[test]
fn windows_taskkill_command_uses_system32_executable_from_systemroot() {
    let command = windows_taskkill_process_tree_command_from_env(
        42,
        &vec![("SystemRoot".to_string(), r"C:\Windows".to_string())],
    )
    .expect("taskkill command");

    assert_eq!(command.executable, r"C:\Windows\System32\taskkill.exe");
    assert_eq!(command.args, windows_taskkill_process_tree_args(42));
}

#[test]
fn windows_taskkill_command_requires_windows_root_environment() {
    assert!(windows_taskkill_process_tree_command_from_env(
        42,
        &vec![("PATH".to_string(), r"C:\Temp".to_string())],
    )
    .is_none());
}
