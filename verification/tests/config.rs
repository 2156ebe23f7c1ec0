use ciprobe_config::config::{clone_texts, contains_text, find_task_from, lowercase_names, merge_duplicates};
use ciprobe_config::{Config, GitVersionState, SupportedTask, TaskStates, TaskValidState, TaskVersions};

fn strings(v: &[&str]) -> Vec<String> {
    v.iter().map(|s| s.to_string()).collect()
}

fn entry(name: &str, versions: &[&str]) -> TaskVersions {
    TaskVersions { name: name.to_string(), versions: strings(versions) }
}

fn pair(setup: &str, execute: &str) -> GitVersionState {
    GitVersionState { setup_version: setup.to_string(), execute_version: execute.to_string() }
}

fn sample() -> Config {
    Config::load(TaskStates {
        gitversion: vec![pair("0.9.7", "0.9.7"), pair("0.10.2", "0.10.3")],
        other_tasks: vec![
            entry("DotNetCoreCLI", &["2", "2.1.0"]),
            entry("npm", &["1"]),
            entry("Empty", &[]),
        ],
    })
}

fn names(list: &[TaskVersions]) -> Vec<String> {
    list.iter().map(|e| e.name.clone()).collect()
}

#[test]
fn load_lowercases_task_names() {
    let config = sample();
    assert_eq!(names(&config.task_states.other_tasks), strings(&["dotnetcorecli", "npm", "empty"]));
    assert_eq!(config.task_states.other_tasks[0].versions, strings(&["2", "2.1.0"]));
    assert_eq!(config.task_states.other_tasks[1].versions, strings(&["1"]));
    assert!(config.task_states.other_tasks[2].versions.is_empty());
    assert_eq!(config.task_states.gitversion.len(), 2);
    assert_eq!(config.task_states.gitversion[1].setup_version, "0.10.2");
    assert_eq!(config.task_states.gitversion[1].execute_version, "0.10.3");
}

#[test]
fn later_entry_wins_when_names_collide() {
    let config = Config::load(TaskStates {
        gitversion: vec![],
        other_tasks: vec![entry("MyTask", &["1", "2"]), entry("mytask", &["3"])],
    });
    assert_eq!(config.task_states.other_tasks.len(), 1);
    assert_eq!(config.task_states.other_tasks[0].name, "mytask");
    assert_eq!(config.task_states.other_tasks[0].versions, strings(&["3"]));
    assert!(config.is_valid_version("mytask", "3"));
    assert!(!config.is_valid_version("mytask", "1"));
}

#[test]
fn collisions_keep_the_order_of_the_surviving_entries() {
    let config = Config::load(TaskStates {
        gitversion: vec![],
        other_tasks: vec![
            entry("A", &["1"]),
            entry("b", &["2"]),
            entry("a", &["3"]),
            entry("C", &["4"]),
            entry("B", &["5"]),
        ],
    });
    assert_eq!(names(&config.task_states.other_tasks), strings(&["a", "c", "b"]));
    assert_eq!(config.task_states.other_tasks[0].versions, strings(&["3"]));
    assert_eq!(config.task_states.other_tasks[1].versions, strings(&["4"]));
    assert_eq!(config.task_states.other_tasks[2].versions, strings(&["5"]));
}

#[test]
fn normalize_task_names_changes_the_store_in_place() {
    let mut config = Config {
        task_states: TaskStates {
            gitversion: vec![pair("1", "2")],
            other_tasks: vec![entry("NuGet", &["2"])],
        },
    };
    config.normalize_task_names();
    assert_eq!(names(&config.task_states.other_tasks), strings(&["nuget"]));
    assert_eq!(config.task_states.gitversion.len(), 1);
    assert_eq!(config.task_states.gitversion[0].setup_version, "1");
}

#[test]
fn lowercase_names_keeps_every_entry() {
    let out = lowercase_names(&vec![entry("MyTask", &["1"]), entry("mytask", &["2"]), entry("ÄB", &[])]);
    assert_eq!(names(&out), strings(&["mytask", "mytask", "äb"]));
    assert_eq!(out[0].versions, strings(&["1"]));
    assert_eq!(out[1].versions, strings(&["2"]));
}

#[test]
fn merge_duplicates_compares_names_exactly() {
    let out = merge_duplicates(&vec![entry("a", &["1"]), entry("A", &["2"]), entry("a", &["3"])]);
    assert_eq!(names(&out), strings(&["A", "a"]));
    assert_eq!(out[1].versions, strings(&["3"]));
    assert!(merge_duplicates(&vec![]).is_empty());
}

#[test]
fn find_task_from_gives_the_last_match() {
    let list = vec![entry("a", &[]), entry("b", &[]), entry("a", &[])];
    assert_eq!(find_task_from(&list, "a", 0), Some(2));
    assert_eq!(find_task_from(&list, "b", 0), Some(1));
    assert_eq!(find_task_from(&list, "b", 2), None);
    assert_eq!(find_task_from(&list, "c", 0), None);
    assert_eq!(find_task_from(&list, "a", 3), None);
    assert_eq!(find_task_from(&list, "a", 7), None);
}

#[test]
fn text_list_helpers() {
    let v = strings(&["1", "2.0"]);
    assert_eq!(clone_texts(&v), v);
    assert!(contains_text(&v, "2.0"));
    assert!(!contains_text(&v, "2"));
    assert!(!contains_text(&vec![], ""));
}

#[test]
fn valid_states_of_the_special_task() {
    let states = sample().get_valid_states(&SupportedTask::Gitversion);
    assert_eq!(states.len(), 2);
    match &states[0] {
        TaskValidState::Gitversion(s) => {
            assert_eq!(s.setup_version, "0.9.7");
            assert_eq!(s.execute_version, "0.9.7");
        }
        other => panic!("unexpected state {other:?}"),
    }
    match &states[1] {
        TaskValidState::Gitversion(s) => {
            assert_eq!(s.setup_version, "0.10.2");
            assert_eq!(s.execute_version, "0.10.3");
        }
        other => panic!("unexpected state {other:?}"),
    }
}

#[test]
fn valid_states_of_a_named_task() {
    let states = sample().get_valid_states(&SupportedTask::Default("dotnetcorecli".to_string()));
    assert_eq!(states.len(), 2);
    match (&states[0], &states[1]) {
        (TaskValidState::Default(a), TaskValidState::Default(b)) => {
            assert_eq!(a, "2");
            assert_eq!(b, "2.1.0");
        }
        other => panic!("unexpected states {other:?}"),
    }
}

#[test]
fn valid_states_of_an_unknown_task_are_empty() {
    let config = sample();
    assert!(config.get_valid_states(&SupportedTask::Default("unknown".to_string())).is_empty());
    assert!(config.get_valid_states(&SupportedTask::Default("".to_string())).is_empty());
    assert!(config.get_valid_states(&SupportedTask::Default("gitversion".to_string())).is_empty());
}

#[test]
fn valid_states_look_names_up_exactly() {
    let config = sample();
    assert!(config.get_valid_states(&SupportedTask::Default("DotNetCoreCLI".to_string())).is_empty());
    assert!(config.get_valid_states(&SupportedTask::Default("empty".to_string())).is_empty());
}

#[test]
fn all_tasks_start_with_the_special_task() {
    let tasks = sample().get_all_tasks();
    assert_eq!(tasks.len(), 4);
    assert!(matches!(tasks[0], SupportedTask::Gitversion));
    let rest: Vec<String> = tasks[1..]
        .iter()
        .map(|t| match t {
            SupportedTask::Default(name) => name.clone(),
            SupportedTask::Gitversion => panic!("the special task stands twice"),
        })
        .collect();
    assert_eq!(rest, strings(&["dotnetcorecli", "npm", "empty"]));
}

#[test]
fn all_tasks_of_an_empty_store() {
    let config = Config::load(TaskStates { gitversion: vec![], other_tasks: vec![] });
    let tasks = config.get_all_tasks();
    assert_eq!(tasks.len(), 1);
    assert!(matches!(tasks[0], SupportedTask::Gitversion));
}

#[test]
fn special_task_accepts_setup_or_execute_version() {
    let config = sample();
    assert!(config.is_valid_version("gitversion", "0.9.7"));
    assert!(config.is_valid_version("gitversion", "0.10.2"));
    assert!(config.is_valid_version("gitversion", "0.10.3"));
    assert!(!config.is_valid_version("gitversion", "0.10.4"));
    assert!(!config.is_valid_version("gitversion", ""));
}

#[test]
fn special_task_name_ignores_case() {
    let config = sample();
    assert!(config.is_valid_version("GitVersion", "0.10.3"));
    assert!(config.is_valid_version("GITVERSION", "0.9.7"));
    assert!(!config.is_valid_version("GitVersion", "2"));
}

#[test]
fn special_task_compares_versions_exactly() {
    let config = Config::load(TaskStates {
        gitversion: vec![pair("1.0.0", "1.0.0-Beta")],
        other_tasks: vec![],
    });
    assert!(config.is_valid_version("gitversion", "1.0.0"));
    assert!(!config.is_valid_version("gitversion", "1"));
    assert!(!config.is_valid_version("gitversion", "1.0"));
    assert!(config.is_valid_version("gitversion", "1.0.0-Beta"));
    assert!(!config.is_valid_version("gitversion", "1.0.0-beta"));
}

#[test]
fn named_task_is_looked_up_as_given() {
    let config = sample();
    assert!(config.is_valid_version("npm", "1"));
    assert!(!config.is_valid_version("NPM", "1"));
    assert!(config.is_valid_version("dotnetcorecli", "2.1.0"));
    assert!(!config.is_valid_version("DotNetCoreCLI", "2.1.0"));
    assert!(!config.is_valid_version("unknown", "1"));
}

#[test]
fn named_task_compares_versions_exactly() {
    let config = sample();
    assert!(!config.is_valid_version("npm", "1.0.0"));
    assert!(!config.is_valid_version("dotnetcorecli", "2.1"));
    assert!(!config.is_valid_version("empty", ""));
}

#[test]
fn is_valid_version_given_takes_the_folded_name() {
    let config = sample();
    assert!(config.is_valid_version_given("gitversion", "anything", "0.9.7"));
    assert!(!config.is_valid_version_given("Gitversion", "gitversion", "0.9.7"));
    assert!(config.is_valid_version_given("x", "npm", "1"));
    assert!(!config.is_valid_version_given("npm", "x", "1"));
}
