use todo_adapter::command::{add_args, command_result, complete_args, completed_args};
use todo_adapter::command::{delete_args, delete_targets, id_text, list_args, newest_todo};
use todo_adapter::command::spawn_error;
use todo_adapter::task::{AlfredItem, Todo};

fn record(id: u32, text: &str) -> Todo {
    Todo::new(id, text.to_string())
}

#[test]
fn failed_run_reports_its_error_stream() {
    let r = command_result(false, b"ignored".to_vec(), b"binary not found".to_vec());
    let message = r.unwrap_err();
    assert!(message.contains("binary not found"));
    assert_eq!(message, "命令执行失败: binary not found");
}

#[test]
fn failed_run_with_odd_bytes_still_reports() {
    let r = command_result(false, Vec::new(), vec![b'a', 0xff, b'b']);
    assert_eq!(r, Err("命令执行失败: a\u{fffd}b".to_string()));
    let r = command_result(false, vec![0xff], Vec::new());
    assert_eq!(r, Err("命令执行失败: ".to_string()));
}

#[test]
fn successful_run_gives_its_output() {
    let r = command_result(true, "{\"items\":[]} 🎯".as_bytes().to_vec(), b"warning".to_vec());
    assert_eq!(r, Ok("{\"items\":[]} 🎯".to_string()));
    assert_eq!(command_result(true, Vec::new(), Vec::new()), Ok(String::new()));
}

#[test]
fn output_that_is_no_text_is_refused() {
    let message = command_result(true, vec![b'o', b'k', 0xc3], Vec::new()).unwrap_err();
    assert!(message.starts_with("解析输出失败: "));
    assert!(message.len() > "解析输出失败: ".len());
}

#[test]
fn spawn_failure_is_worded() {
    assert_eq!(spawn_error("No such file"), "执行命令失败: No such file");
}

#[test]
fn newest_record_has_the_greatest_id() {
    let r = newest_todo(vec![record(2, "b"), record(9, "z"), record(4, "d")]);
    assert_eq!(r, Ok(record(9, "z")));
    let r = newest_todo(vec![record(5, "first"), record(1, "a"), record(5, "last")]);
    assert_eq!(r, Ok(record(5, "last")));
    assert_eq!(newest_todo(vec![record(1, "only")]), Ok(record(1, "only")));
    assert_eq!(newest_todo(Vec::new()), Err("未能创建任务".to_string()));
}

#[test]
fn delete_targets_are_the_args_in_order() {
    let items = vec![
        AlfredItem { title: "a".to_string(), subtitle: None, arg: Some("3".to_string()) },
        AlfredItem { title: "b".to_string(), subtitle: Some("s".to_string()), arg: None },
        AlfredItem { title: "c".to_string(), subtitle: None, arg: Some("".to_string()) },
        AlfredItem { title: "d".to_string(), subtitle: None, arg: Some("1".to_string()) },
    ];
    assert_eq!(delete_targets(&items), vec!["3".to_string(), String::new(), "1".to_string()]);
    assert_eq!(delete_targets(&Vec::new()), Vec::<String>::new());
}

#[test]
fn ids_are_written_in_base_ten() {
    for id in [0u32, 1, 9, 10, 11, 99, 100, 101, 12345, 1000000, 4294967295] {
        assert_eq!(id_text(id), id.to_string());
    }
}

#[test]
fn commands_have_their_arguments() {
    assert_eq!(list_args(), vec!["list".to_string()]);
    assert_eq!(completed_args(), vec!["back".to_string()]);
    assert_eq!(add_args("buy milk tomorrow"), vec!["buy milk tomorrow".to_string()]);
    assert_eq!(complete_args(42), vec!["complete".to_string(), "42".to_string()]);
    assert_eq!(delete_args("7"), vec!["delete".to_string(), "7".to_string()]);
}
