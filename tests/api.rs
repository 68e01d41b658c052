use native_api::api::exists_answer;
use native_api::api::invalid_operation_message;
use native_api::api::java_choices;
use native_api::api::java_entry;
use native_api::api::parse_operation;
use native_api::api::python_choices;
use native_api::api::python_entry;
use native_api::api::recursive_flag;
use native_api::api::server_version_url;
use native_api::api::Operation;
use native_api::paths::dirname;
use native_api::paths::join_all;
use native_api::paths::relative;

#[test]
fn operation_names() {
    assert_eq!(parse_operation("getJavas"), Some(Operation::GetJavas));
    assert_eq!(parse_operation("child_process.spawn"), Some(Operation::ChildProcessSpawn));
    assert_eq!(parse_operation("child_process.kill"), Some(Operation::ChildProcessKill));
    assert_eq!(parse_operation("path.sep"), Some(Operation::PathSep));
    assert_eq!(parse_operation("fs.getFiles"), Some(Operation::FsGetFiles));
    assert_eq!(parse_operation("getjavas"), None);
    assert_eq!(parse_operation(""), None);
    assert_eq!(invalid_operation_message(), "Invalid native API operation");
}

#[test]
fn java_choice_list() {
    let entries = vec![
        java_entry("1.8.0_292".to_string(), "x64".to_string(), "/opt/jdk8".to_string()),
        java_entry("1.8.0_311".to_string(), "aarch64".to_string(), "/opt/jdk8b".to_string()),
    ];
    let list = java_choices(&entries);
    assert_eq!(
        list,
        vec![
            "Auto".to_string(),
            "/opt/jdk8".to_string(),
            "1.8.0_292 (x64)".to_string(),
            "/opt/jdk8".to_string(),
            "1.8.0_311 (aarch64)".to_string(),
            "/opt/jdk8b".to_string(),
        ]
    );
    assert_eq!(java_choices(&vec![]), vec!["Auto".to_string(), String::new()]);
}

#[test]
fn python_choice_list() {
    let entries = vec![
        python_entry("/usr/bin/python3".to_string(), Some("Python 3".to_string()), Some("3.11.2".to_string())),
        python_entry("/usr/bin/python".to_string(), None, None),
    ];
    let list = python_choices(&entries);
    assert_eq!(
        list,
        vec![
            "Python 3 (3.11.2)".to_string(),
            "/usr/bin/python3".to_string(),
            "/usr/bin/python (Unknown)".to_string(),
            "/usr/bin/python".to_string(),
        ]
    );
}

#[test]
fn paths_join_dirname_relative() {
    let parts = vec!["a".to_string(), "b".to_string(), "c.txt".to_string()];
    assert_eq!(join_all(&parts), "a/b/c.txt");
    assert_eq!(join_all(&vec![]), "");
    assert_eq!(dirname("/a/b/c.txt"), "/a/b");
    assert_eq!(dirname("/"), "");
    assert_eq!(relative("a/b", "a/c/d"), "../c/d");
    assert_eq!(relative("a/b", "a/b"), "");
}

#[test]
fn server_url_and_exists() {
    assert_eq!(
        server_version_url("24"),
        "https://api.battlecode.org/api/episode/e/bc24/?format=json"
    );
    assert_eq!(exists_answer(true), "true");
    assert_eq!(exists_answer(false), "");
}

#[test]
fn listing_recursion_flag() {
    assert!(!recursive_flag(&vec!["/a".to_string()]));
    assert!(recursive_flag(&vec!["/a".to_string(), "true".to_string()]));
    assert!(!recursive_flag(&vec!["/a".to_string(), "false".to_string()]));
    assert!(!recursive_flag(&vec![]));
}
