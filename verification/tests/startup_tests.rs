use mihub_lib::json::Json;
use mihub_lib::startup::{
    initial_config_done, interpreter_layout, needs_initial_config, search_path, InterpreterLayout,
};
use mihub_lib::{get_checkin, get_promo_code, get_task_data, ModulePaths, SideTasks};

fn s(text: &str) -> String {
    text.to_string()
}

#[test]
fn dependencies_completion_shows_main_window() {
    let mut tasks = SideTasks { updater: false, dependencies: false };
    assert!(!tasks.set_complete(&s("updater")));
    assert_eq!(tasks, SideTasks { updater: true, dependencies: false });
    assert!(tasks.set_complete(&s("dependencies")));
    assert_eq!(tasks, SideTasks { updater: true, dependencies: true });
}

#[test]
fn unknown_side_task_changes_nothing() {
    let mut tasks = SideTasks { updater: false, dependencies: false };
    assert!(!tasks.set_complete(&s("something")));
    assert_eq!(tasks, SideTasks { updater: false, dependencies: false });
    let mut done = SideTasks { updater: false, dependencies: true };
    assert!(done.set_complete(&s("")));
    assert!(done.dependencies);
}

#[test]
fn paths_unset_before_initialization() {
    let paths = ModulePaths::new();
    assert_eq!(get_checkin(&paths), None);
    assert_eq!(get_promo_code(&paths), None);
    assert_eq!(get_task_data(&paths), None);
}

#[test]
fn paths_set_once_law_example() {
    let mut paths = ModulePaths::new();
    paths.initialize_modules(s("/res/daily_checkin.py"), s("/res/promo_code_redeem.py"), s("/data/data.json"));
    assert_eq!(get_checkin(&paths), Some("/res/daily_checkin.py"));
    assert_eq!(get_promo_code(&paths), Some("/res/promo_code_redeem.py"));
    assert_eq!(get_task_data(&paths), Some("/data/data.json"));
    paths.initialize_modules(s("other"), s("other"), s("other"));
    assert_eq!(get_checkin(&paths), Some("/res/daily_checkin.py"));
    assert_eq!(get_task_data(&paths), Some("/data/data.json"));
}

#[test]
fn initial_config_decision() {
    let yes = Json::Object(vec![(s("initial_config"), Json::Bool(true))]);
    let no = Json::Object(vec![(s("initial_config"), Json::Bool(false))]);
    let text = Json::Object(vec![(s("initial_config"), Json::Str(s("true")))]);
    assert!(needs_initial_config(false, &None));
    assert!(needs_initial_config(false, &Some(no)));
    assert!(needs_initial_config(true, &Some(yes)));
    assert!(!needs_initial_config(true, &Some(text)));
    assert!(!needs_initial_config(true, &None));
    assert!(!needs_initial_config(true, &Some(Json::Bool(true))));
}

#[test]
fn initial_config_runs_once_law_example() {
    let record = initial_config_done();
    assert_eq!(record, Json::Object(vec![(s("initial_config"), Json::Bool(false))]));
    assert!(!needs_initial_config(true, &Some(record)));
}

#[test]
fn search_path_separators() {
    assert_eq!(search_path(true, &s("C:\\Windows"), &s("C:\\lib"), &s("C:\\bin")), "C:\\Windows;C:\\lib;C:\\bin");
    assert_eq!(search_path(false, &s("/usr/bin"), &s("/lib"), &s("/bin")), "/usr/bin:/lib:/bin");
    assert_eq!(search_path(false, &s(""), &s("a"), &s("b")), ":a:b");
}

#[test]
fn interpreter_layout_per_platform() {
    assert_eq!(
        interpreter_layout(true),
        InterpreterLayout {
            libs_subdir: None,
            python_subdir: s("Python311"),
            bin_subdir: s("Python311\\Scripts"),
            site_packages_subdir: s("Python311/site-packages"),
        }
    );
    assert_eq!(
        interpreter_layout(false),
        InterpreterLayout {
            libs_subdir: Some(s("Python311")),
            python_subdir: s("python3.11"),
            bin_subdir: s("bin"),
            site_packages_subdir: s("lib/python3.11/site-packages"),
        }
    );
}
