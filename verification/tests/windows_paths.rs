use heel::windows::paths::{
    pyvenv_runtime_roots_from_text, pyvenv_setting_of_line, root_of_setting, runtime_grants, RootAccess,
};
use std::path::Path;

#[test]
fn paths_pyvenv_runtime_roots_parse_home_and_executable() {
    let roots = pyvenv_runtime_roots_from_text(
        "home = C:/Python314\nexecutable = C:/Python314/python.exe\n",
    );

    assert!(roots.iter().any(|path| Path::new(path).ends_with("Python314")));
    assert_eq!(roots.len(), 2);
}

#[test]
fn sandbox_pyvenv_runtime_roots_parse_home_and_executable() {
    let roots = pyvenv_runtime_roots_from_text(
        "home = C:/Python314\nexecutable = C:/Python314/python.exe\n",
    );

    assert!(roots.iter().any(|path| Path::new(path).ends_with("Python314")));
    assert_eq!(roots.len(), 2);
}

#[test]
fn pyvenv_roots_ignore_other_keys_quotes_and_empty_values() {
    let roots = pyvenv_runtime_roots_from_text(
        "include-system-site-packages = false\r\nHOME = \"/opt/py\"\r\nexecutable=\nversion = 3.12\nno separator\n",
    );
    assert_eq!(roots, vec!["/opt/py".to_string()]);
}

#[test]
fn pyvenv_roots_of_empty_text_are_empty() {
    assert!(pyvenv_runtime_roots_from_text("").is_empty());
}

#[test]
fn pyvenv_lines_name_settings() {
    let home = pyvenv_setting_of_line("  HOME = \"C:/Python312\" ").expect("home");
    assert!(home.home);
    assert_eq!(home.value, "C:/Python312");
    let exe = pyvenv_setting_of_line("executable=C:/Py/python.exe").expect("executable");
    assert!(!exe.home);
    assert_eq!(exe.value, "C:/Py/python.exe");
    assert!(pyvenv_setting_of_line("version = 3.12").is_none());
    assert!(pyvenv_setting_of_line("home =").is_none());
    assert_eq!(root_of_setting(home, Some("ignored".to_string())), Some("C:/Python312".to_string()));
    assert_eq!(root_of_setting(exe.clone(), Some("C:/Py".to_string())), Some("C:/Py".to_string()));
    assert_eq!(root_of_setting(exe, None), None);
}

#[test]
fn runtime_grants_list_venv_interpreter_and_cfg_roots() {
    let gs = runtime_grants("C:/venv", Some("C:/Py".to_string()), &vec!["C:/Base".to_string()]);
    let paths: Vec<&str> = gs.iter().map(|g| g.path.as_str()).collect();
    assert_eq!(paths, vec!["C:/venv", "C:/Py", "C:/Base"]);
    assert!(gs.iter().all(|g| g.access == RootAccess::Runtime && g.is_directory));
    assert_eq!(runtime_grants("C:/venv", None, &Vec::new()).len(), 1);
}
