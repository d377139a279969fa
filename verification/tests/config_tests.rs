use todo_adapter::config::{command_env, get_config_path, get_todo_binary_path, get_todo_dir};
use todo_adapter::config::{get_todos_file_path, initialize_todo_files, join_path};
use todo_adapter::config::{todo_binary_name, AppConfig, Platform};

fn pair(name: &str, value: &str) -> (String, String) {
    (name.to_string(), value.to_string())
}

#[test]
fn standard_settings_are_chinese() {
    let c = AppConfig::default();
    assert_eq!(c.api_key, None);
    assert_eq!(c.language, Some("zh".to_string()));
    assert_eq!(c.llm_base_url, None);
    assert_eq!(c.llm_model, None);
}

#[test]
fn environment_holds_what_is_set() {
    assert_eq!(command_env(&AppConfig::default()), vec![pair("TODO_LANG", "zh")]);
    let full = AppConfig {
        api_key: Some("key".to_string()),
        language: Some("en".to_string()),
        llm_base_url: Some("http://localhost".to_string()),
        llm_model: Some("small".to_string()),
    };
    assert_eq!(
        command_env(&full),
        vec![
            pair("TODO_LANG", "en"),
            pair("API_KEY", "key"),
            pair("LLM_BASE_URL", "http://localhost"),
            pair("LLM_MODEL", "small"),
        ]
    );
}

#[test]
fn environment_leaves_out_what_is_empty() {
    let sparse = AppConfig {
        api_key: Some(String::new()),
        language: Some(String::new()),
        llm_base_url: Some(String::new()),
        llm_model: Some("m".to_string()),
    };
    assert_eq!(command_env(&sparse), vec![pair("LLM_MODEL", "m")]);
    let none = AppConfig { api_key: None, language: None, llm_base_url: None, llm_model: None };
    assert_eq!(command_env(&none), Vec::<(String, String)>::new());
}

#[test]
fn binary_is_named_by_platform() {
    assert_eq!(todo_binary_name(Platform::MacArm), "binaries/todo-aarch64-apple-darwin");
    assert_eq!(todo_binary_name(Platform::MacIntel), "binaries/todo-x86_64-apple-darwin");
    assert_eq!(todo_binary_name(Platform::Linux), "binaries/todo-x86_64-unknown-linux-gnu");
    assert_eq!(todo_binary_name(Platform::Other), "binaries/todo");
    assert_eq!(
        get_todo_binary_path(Platform::Linux, Some("/opt/app/todo".to_string())),
        Ok("/opt/app/todo".to_string())
    );
    assert_eq!(
        get_todo_binary_path(Platform::Other, None),
        Err("Failed to resolve binaries/todo binary path".to_string())
    );
}

#[test]
fn paths_are_joined_by_one_slash() {
    assert_eq!(join_path("/home/u", ".todo"), "/home/u/.todo");
    assert_eq!(join_path("/home/u/", ".todo"), "/home/u/.todo");
    assert_eq!(join_path("/", "x"), "/x");
    assert_eq!(join_path("", "x"), "x");
    assert_eq!(join_path("主", "x"), "主/x");
}

#[test]
fn task_files_live_under_the_home_directory() {
    assert_eq!(get_todo_dir(Some("/home/u".to_string())), Ok("/home/u/.todo".to_string()));
    assert_eq!(get_todo_dir(None), Err("无法获取用户主目录".to_string()));
    assert_eq!(
        get_todos_file_path(Some("/home/u".to_string())),
        Ok("/home/u/.todo/todos.json".to_string())
    );
    assert_eq!(get_todos_file_path(None), Err("无法获取用户主目录".to_string()));
    assert_eq!(
        get_config_path(Some("/data/app".to_string())),
        Ok("/data/app/config.json".to_string())
    );
    assert_eq!(get_config_path(None), Err("Failed to get app data directory".to_string()));
}

#[test]
fn missing_task_file_starts_as_the_empty_listing() {
    assert_eq!(initialize_todo_files(false), Some("{\"items\":[]}".to_string()));
    assert_eq!(initialize_todo_files(true), None);
}
