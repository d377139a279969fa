//! The stored forms of the task list and of the settings: JSON documents,
//! and the rules by which records and settings are written into them and
//! read back.

use vstd::prelude::*;
use crate::config::{AppConfig, ConfigView};
use crate::envelope::decode_failure;
use crate::config::standard_language;
use crate::fields::{defaulted_text, optional_flag, optional_text, required_id, required_text};
use crate::fields::{flag_member, id_member, required_member, text_member, text_member_or};
use crate::json::{json_array, json_error_text, json_is_object, json_member};
use crate::json::{make_flag, make_list, make_natural, make_null, make_object, make_text};
use crate::json::{json_model, json_models, pair_models, parsed_json, pretty_json};
use crate::json::{parse_json, push_member, render_pretty, JsonModel};
use crate::store::{error_text, lemma_settled, unique_ids, StoreError, TaskStore};
use crate::task::{opt_text, settled_views, status_of, status_text, todo_views, Todo, TodoView};

verus! {

/// What an optional text is stored as: the text, or `null`.
pub open spec fn optional_model(o: Option<Seq<char>>) -> JsonModel {
    match o {
        Some(s) => JsonModel::Text(s),
        None => JsonModel::Null,
    }
}

/// The members of the object that a record is stored as.
pub open spec fn task_members(t: TodoView) -> Map<Seq<char>, JsonModel> {
    Map::<Seq<char>, JsonModel>::empty().insert("taskId"@, JsonModel::Natural(t.id as nat)).insert(
        "taskName"@,
        JsonModel::Text(t.text),
    ).insert("status"@, JsonModel::Text(t.status)).insert(
        "taskDesc"@,
        optional_model(t.description),
    ).insert("dueDate"@, optional_model(t.due_date)).insert(
        "urgent"@,
        optional_model(t.urgent),
    ).insert("completed"@, JsonModel::Bool(t.completed))
}

/// The document that a record is stored as.
pub open spec fn task_model(t: TodoView) -> JsonModel {
    JsonModel::Object(task_members(t))
}

/// The document that a task list is stored as: an object whose member
/// `items` lists the records in order.
pub open spec fn tasks_model(tasks: Seq<TodoView>) -> JsonModel {
    JsonModel::Object(
        Map::<Seq<char>, JsonModel>::empty().insert(
            "items"@,
            JsonModel::Array(Seq::new(tasks.len(), |i: int| task_model(tasks[i]))),
        ),
    )
}

/// The document that settings are stored as.
pub open spec fn config_model(c: ConfigView) -> JsonModel {
    JsonModel::Object(
        Map::<Seq<char>, JsonModel>::empty().insert("apiKey"@, optional_model(c.api_key)).insert(
            "language"@,
            optional_model(c.language),
        ).insert("llmBaseUrl"@, optional_model(c.llm_base_url)).insert(
            "llmModel"@,
            optional_model(c.llm_model),
        ),
    )
}

/// The record that a document stands for, or `None` where it stands for none.
pub open spec fn model_task(m: JsonModel) -> Option<TodoView> {
    match m {
        JsonModel::Object(members) => match (
            required_id(members, "taskId"@),
            required_text(members, "taskName"@),
            required_text(members, "status"@),
            optional_text(members, "taskDesc"@),
            optional_text(members, "dueDate"@),
            optional_text(members, "urgent"@),
            optional_flag(members, "completed"@),
        ) {
            (
                Some(id),
                Some(text),
                Some(status),
                Some(description),
                Some(due_date),
                Some(urgent),
                Some(completed),
            ) => Some(TodoView { id, text, status, description, due_date, urgent, completed }),
            _ => None,
        },
        _ => None,
    }
}

/// The record that a document in the short form stands for: an object with
/// an `id`, a `text` and, optionally, a `completed` flag, from which the
/// status text follows. `None` where it stands for none.
pub open spec fn model_short_task(m: JsonModel) -> Option<TodoView> {
    match m {
        JsonModel::Object(members) => match (
            required_id(members, "id"@),
            required_text(members, "text"@),
            optional_flag(members, "completed"@),
        ) {
            (Some(id), Some(text), Some(completed)) => Some(
                TodoView { completed, status: status_text(completed), ..TodoView::fresh(id, text) },
            ),
            _ => None,
        },
        _ => None,
    }
}

/// The record that a document stands for, in the short form or the full one.
pub open spec fn model_record(m: JsonModel, short: bool) -> Option<TodoView> {
    if short {
        model_short_task(m)
    } else {
        model_task(m)
    }
}

/// The records that a list of documents stands for, or `None` where one of
/// them stands for none.
pub open spec fn model_task_list(a: Seq<JsonModel>, short: bool) -> Option<Seq<TodoView>> {
    if forall|i: int| 0 <= i < a.len() ==> (#[trigger] model_record(a[i], short)) is Some {
        Some(Seq::new(a.len(), |i: int| model_record(a[i], short)->0))
    } else {
        None
    }
}

/// The task list that a document stands for: an object whose member `items`
/// lists records in the full form, or a bare list of records in the short
/// form. `None` where it stands for none.
pub open spec fn model_tasks(m: JsonModel) -> Option<Seq<TodoView>> {
    match m {
        JsonModel::Object(members) => {
            if members.contains_key("items"@) {
                match members["items"@] {
                    JsonModel::Array(a) => model_task_list(a, false),
                    _ => None,
                }
            } else {
                None
            }
        },
        JsonModel::Array(a) => model_task_list(a, true),
        _ => None,
    }
}

/// The settings that a document stands for, or `None` where it stands for
/// none. A document that does not mention the language stands for the
/// standard one; a document that sets it to `null` stands for none.
pub open spec fn model_config(m: JsonModel) -> Option<ConfigView> {
    match m {
        JsonModel::Object(members) => match (
            optional_text(members, "apiKey"@),
            defaulted_text(members, "language"@, standard_language()),
            optional_text(members, "llmBaseUrl"@),
            optional_text(members, "llmModel"@),
        ) {
            (Some(api_key), Some(language), Some(llm_base_url), Some(llm_model)) => Some(
                ConfigView { api_key, language, llm_base_url, llm_model },
            ),
            _ => None,
        },
        _ => None,
    }
}

/// The task list that a text holds, or `None` where it holds none.
pub open spec fn stored_tasks(text: Seq<char>) -> Option<Seq<TodoView>> {
    match parsed_json(text) {
        Some(m) => model_tasks(m),
        None => None,
    }
}

/// The settings that a text holds, or `None` where it holds none.
pub open spec fn stored_config(text: Seq<char>) -> Option<ConfigView> {
    match parsed_json(text) {
        Some(m) => model_config(m),
        None => None,
    }
}

/// The settings to work with, given what the settings file held, if there
/// was one to read: the stored settings, or the standard ones.
pub open spec fn loaded_config(content: Option<Seq<char>>) -> ConfigView {
    match content {
        Some(text) => match stored_config(text) {
            Some(c) => c,
            None => ConfigView::standard(),
        },
        None => ConfigView::standard(),
    }
}

/// The names of a record's members differ from one another.
pub proof fn lemma_task_names()
    ensures
        "taskId"@.len() == 6 && "taskId"@[0] == 't',
        "taskName"@.len() == 8 && "taskName"@[4] == 'N',
        "status"@.len() == 6 && "status"@[0] == 's',
        "taskDesc"@.len() == 8 && "taskDesc"@[4] == 'D',
        "dueDate"@.len() == 7,
        "urgent"@.len() == 6 && "urgent"@[0] == 'u',
        "completed"@.len() == 9,
{
    reveal_strlit("taskId");
    reveal_strlit("taskName");
    reveal_strlit("status");
    reveal_strlit("taskDesc");
    reveal_strlit("dueDate");
    reveal_strlit("urgent");
    reveal_strlit("completed");
}

/// The names of the settings differ from one another.
pub proof fn lemma_config_names()
    ensures
        "apiKey"@.len() == 6,
        "language"@.len() == 8 && "language"@[1] == 'a',
        "llmBaseUrl"@.len() == 10,
        "llmModel"@.len() == 8 && "llmModel"@[1] == 'l',
{
    reveal_strlit("apiKey");
    reveal_strlit("language");
    reveal_strlit("llmBaseUrl");
    reveal_strlit("llmModel");
}

/// Reading back the document that a record was stored as gives the record.
pub proof fn lemma_task_round_trip(t: TodoView)
    ensures
        model_task(task_model(t)) == Some(t),
{
    lemma_task_names();
}

/// Reading back the document that a task list was stored as gives the same
/// records in the same order.
pub proof fn lemma_tasks_round_trip(tasks: Seq<TodoView>)
    ensures
        model_tasks(tasks_model(tasks)) == Some(tasks),
{
    let a = Seq::new(tasks.len(), |i: int| task_model(tasks[i]));
    assert forall|i: int| 0 <= i < a.len() implies (#[trigger] model_record(a[i], false)) == Some(
        tasks[i],
    ) by {
        lemma_task_round_trip(tasks[i]);
    }
    assert(model_task_list(a, false)->0 =~= tasks);
}

/// A text that reads as the document of a task list holds that task list:
/// what is written is read back as it was, provided that the text reads as
/// the document it was written for.
pub proof fn lemma_stored_tasks_read_back(tasks: Seq<TodoView>, text: Seq<char>)
    requires
        parsed_json(text) == Some(tasks_model(tasks)),
    ensures
        stored_tasks(text) == Some(tasks),
{
    lemma_tasks_round_trip(tasks);
}

/// A text that reads as the document of settings holds those settings.
pub proof fn lemma_stored_config_read_back(c: ConfigView, text: Seq<char>)
    requires
        parsed_json(text) == Some(config_model(c)),
    ensures
        stored_config(text) == Some(c),
        loaded_config(Some(text)) == c,
{
    lemma_config_round_trip(c);
}

/// A settings document that does not mention the language stands for
/// settings in the standard language.
pub proof fn lemma_language_defaults(members: Map<Seq<char>, JsonModel>)
    requires
        !members.contains_key("language"@),
        model_config(JsonModel::Object(members)) is Some,
    ensures
        model_config(JsonModel::Object(members))->0.language == Some(standard_language()),
{
}

/// A settings document that sets nothing but the API key stands for that
/// key and the standard language, and one that sets nothing at all stands
/// for the standard settings.
pub proof fn lemma_sparse_settings(key: Seq<char>)
    ensures
        model_config(
            JsonModel::Object(
                Map::<Seq<char>, JsonModel>::empty().insert("apiKey"@, JsonModel::Text(key)),
            ),
        ) == Some(
            ConfigView {
                api_key: Some(key),
                language: Some(standard_language()),
                llm_base_url: None,
                llm_model: None,
            },
        ),
        model_config(JsonModel::Object(Map::<Seq<char>, JsonModel>::empty())) == Some(
            ConfigView::standard(),
        ),
{
    lemma_config_names();
}

/// Reading back the document that settings were stored as gives the settings.
pub proof fn lemma_config_round_trip(c: ConfigView)
    ensures
        model_config(config_model(c)) == Some(c),
{
    lemma_config_names();
}

/// The value that an optional text is stored as.
fn optional_value(o: &Option<String>) -> (r: serde_json::Value)
    ensures
        json_model(r) == optional_model(opt_text(*o)),
{
    match o {
        Some(s) => make_text(s.clone()),
        None => make_null(),
    }
}

/// The JSON value that a record is stored as.
pub fn task_to_value(t: &Todo) -> (r: serde_json::Value)
    ensures
        json_model(r) == task_model(t@),
{
    let mut pairs: Vec<(String, serde_json::Value)> = Vec::new();
    proof {
        lemma_task_names();
        assert(pair_models(pairs@) =~= Seq::empty());
    }
    push_member(&mut pairs, "taskId", make_natural(t.id));
    push_member(&mut pairs, "taskName", make_text(t.text.clone()));
    push_member(&mut pairs, "status", make_text(t.status.clone()));
    push_member(&mut pairs, "taskDesc", optional_value(&t.description));
    push_member(&mut pairs, "dueDate", optional_value(&t.due_date));
    push_member(&mut pairs, "urgent", optional_value(&t.urgent));
    push_member(&mut pairs, "completed", make_flag(t.completed));
    make_object(pairs)
}

/// Reads a record out of a JSON value.
pub fn task_from_value(v: &serde_json::Value) -> (r: Option<Todo>)
    ensures
        match r {
            Some(t) => model_task(json_model(*v)) == Some(t@),
            None => model_task(json_model(*v)) is None,
        },
{
    let id: u32 = match id_member(v, "taskId") {
        Some(id) => id,
        None => {
            return None;
        },
    };
    let text: String = match required_member(v, "taskName") {
        Some(s) => s,
        None => {
            return None;
        },
    };
    let status: String = match required_member(v, "status") {
        Some(s) => s,
        None => {
            return None;
        },
    };
    let description: Option<String> = match text_member(v, "taskDesc") {
        Some(s) => s,
        None => {
            return None;
        },
    };
    let due_date: Option<String> = match text_member(v, "dueDate") {
        Some(s) => s,
        None => {
            return None;
        },
    };
    let urgent: Option<String> = match text_member(v, "urgent") {
        Some(s) => s,
        None => {
            return None;
        },
    };
    let completed: bool = match flag_member(v, "completed") {
        Some(b) => b,
        None => {
            return None;
        },
    };
    Some(Todo { id, text, status, description, due_date, urgent, completed })
}

/// The JSON value that a task list is stored as.
pub fn tasks_to_value(tasks: &Vec<Todo>) -> (r: serde_json::Value)
    ensures
        json_model(r) == tasks_model(todo_views(tasks@)),
{
    let ghost all = todo_views(tasks@);
    let mut list: Vec<serde_json::Value> = Vec::new();
    let mut i: usize = 0;
    while i < tasks.len()
        invariant
            i <= tasks.len(),
            all == todo_views(tasks@),
            list.len() == i,
            forall|k: int| 0 <= k < i ==> json_model(#[trigger] list[k]) == task_model(all[k]),
        decreases tasks.len() - i,
    {
        list.push(task_to_value(&tasks[i]));
        i += 1;
    }
    assert(json_models(list@) =~= Seq::new(all.len(), |i: int| task_model(all[i])));
    let mut pairs: Vec<(String, serde_json::Value)> = Vec::new();
    assert(pair_models(pairs@) =~= Seq::empty());
    push_member(&mut pairs, "items", make_list(list));
    make_object(pairs)
}

/// Reads a record in the short form out of a JSON value.
pub fn short_task_from_value(v: &serde_json::Value) -> (r: Option<Todo>)
    ensures
        match r {
            Some(t) => model_short_task(json_model(*v)) == Some(t@),
            None => model_short_task(json_model(*v)) is None,
        },
{
    let id: u32 = match id_member(v, "id") {
        Some(id) => id,
        None => {
            return None;
        },
    };
    let text: String = match required_member(v, "text") {
        Some(s) => s,
        None => {
            return None;
        },
    };
    let completed: bool = match flag_member(v, "completed") {
        Some(b) => b,
        None => {
            return None;
        },
    };
    Some(
        Todo {
            id,
            text,
            status: status_of(completed),
            description: None,
            due_date: None,
            urgent: None,
            completed,
        },
    )
}

/// Reads the records out of a list of JSON values, all in the short form
/// or all in the full one.
fn records_from_values(list: &Vec<serde_json::Value>, short: bool) -> (r: Option<Vec<Todo>>)
    ensures
        match r {
            Some(tasks) => model_task_list(json_models(list@), short) == Some(todo_views(tasks@)),
            None => model_task_list(json_models(list@), short) is None,
        },
{
    let ghost models = json_models(list@);
    let mut tasks: Vec<Todo> = Vec::new();
    let mut i: usize = 0;
    while i < list.len()
        invariant
            i <= list.len(),
            models == json_models(list@),
            tasks.len() == i,
            forall|k: int|
                0 <= k < i ==> model_record(models[k], short) == Some(#[trigger] tasks[k]@),
        decreases list.len() - i,
    {
        let record = if short {
            short_task_from_value(&list[i])
        } else {
            task_from_value(&list[i])
        };
        match record {
            Some(t) => {
                tasks.push(t);
            },
            None => {
                assert(model_record(models[i as int], short) is None);
                return None;
            },
        }
        i += 1;
    }
    assert forall|k: int| 0 <= k < models.len() implies (#[trigger] model_record(
        models[k],
        short,
    )) is Some by {
        assert(model_record(models[k], short) == Some(tasks[k]@));
    }
    assert(todo_views(tasks@) =~= model_task_list(models, short)->0);
    Some(tasks)
}

/// Reads a task list out of a JSON value.
pub fn tasks_from_value(v: &serde_json::Value) -> (r: Option<Vec<Todo>>)
    ensures
        match r {
            Some(tasks) => model_tasks(json_model(*v)) == Some(todo_views(tasks@)),
            None => model_tasks(json_model(*v)) is None,
        },
{
    match json_array(v) {
        Some(list) => records_from_values(list, true),
        None => match json_member(v, "items") {
            Some(m) => match json_array(m) {
                Some(list) => records_from_values(list, false),
                None => None,
            },
            None => None,
        },
    }
}

/// The JSON value that settings are stored as.
pub fn config_to_value(c: &AppConfig) -> (r: serde_json::Value)
    ensures
        json_model(r) == config_model(c@),
{
    let mut pairs: Vec<(String, serde_json::Value)> = Vec::new();
    proof {
        lemma_config_names();
        assert(pair_models(pairs@) =~= Seq::empty());
    }
    push_member(&mut pairs, "apiKey", optional_value(&c.api_key));
    push_member(&mut pairs, "language", optional_value(&c.language));
    push_member(&mut pairs, "llmBaseUrl", optional_value(&c.llm_base_url));
    push_member(&mut pairs, "llmModel", optional_value(&c.llm_model));
    make_object(pairs)
}

/// Reads settings out of a JSON value.
pub fn config_from_value(v: &serde_json::Value) -> (r: Option<AppConfig>)
    ensures
        match r {
            Some(c) => model_config(json_model(*v)) == Some(c@),
            None => model_config(json_model(*v)) is None,
        },
{
    if !json_is_object(v) {
        return None;
    }
    let api_key: Option<String> = match text_member(v, "apiKey") {
        Some(s) => s,
        None => {
            return None;
        },
    };
    let language: Option<String> = match text_member_or(v, "language", "zh") {
        Some(s) => s,
        None => {
            return None;
        },
    };
    let llm_base_url: Option<String> = match text_member(v, "llmBaseUrl") {
        Some(s) => s,
        None => {
            return None;
        },
    };
    let llm_model: Option<String> = match text_member(v, "llmModel") {
        Some(s) => s,
        None => {
            return None;
        },
    };
    Some(AppConfig { api_key, language, llm_base_url, llm_model })
}

/// The message for a document that is no task list.
pub open spec fn tasks_shape_error() -> Seq<char> {
    "expected a list of task records"@
}

/// The message for a task list that could not be written.
pub open spec fn tasks_write_failure(detail: Seq<char>) -> Seq<char> {
    "Failed to serialize todos: "@ + detail
}

/// The message for settings that could not be written.
pub open spec fn config_write_failure(detail: Seq<char>) -> Seq<char> {
    "Failed to serialize config: "@ + detail
}

/// Writes a task list as the text of its JSON document.
pub fn tasks_to_json(tasks: &Vec<Todo>) -> (r: Result<String, String>)
    ensures
        match r {
            Ok(text) => pretty_json(tasks_model(todo_views(tasks@))) == Some(text@),
            Err(m) => pretty_json(tasks_model(todo_views(tasks@))) is None && exists|d: Seq<char>|
                m@ == tasks_write_failure(d),
        },
{
    let v = tasks_to_value(tasks);
    match render_pretty(&v) {
        Ok(text) => Ok(text),
        Err(e) => {
            let detail = json_error_text(&e);
            let mut message: String = "Failed to serialize todos: ".to_owned();
            message.append(detail.as_str());
            assert(message@ == tasks_write_failure(detail@));
            Err(message)
        },
    }
}

/// Reads a task list out of the text of its JSON document. Fails, with a
/// message, where the text is not a JSON document or the document is not a
/// task list.
pub fn tasks_from_json(text: &str) -> (r: Result<Vec<Todo>, String>)
    ensures
        match r {
            Ok(tasks) => stored_tasks(text@) == Some(todo_views(tasks@)),
            Err(m) => stored_tasks(text@) is None && (exists|d: Seq<char>|
                m@ == decode_failure(d)) && (parsed_json(text@) is Some ==> m@ == decode_failure(
                tasks_shape_error(),
            )),
        },
{
    let detail: String = match parse_json(text) {
        Ok(v) => match tasks_from_value(&v) {
            Some(tasks) => {
                return Ok(tasks);
            },
            None => "expected a list of task records".to_owned(),
        },
        Err(e) => json_error_text(&e),
    };
    let mut message: String = "解析 JSON 失败: ".to_owned();
    message.append(detail.as_str());
    assert(message@ == decode_failure(detail@));
    Err(message)
}

/// The records of the store that a task file gives: none for a missing
/// file; else the task list that the file holds, each record with its
/// status text set to what its completion flag says. `None` where the file
/// holds no task list, or one in which two records share an identifier.
pub open spec fn opened(content: Option<Seq<char>>) -> Option<Seq<TodoView>> {
    match content {
        None => Some(Seq::empty()),
        Some(text) => match stored_tasks(text) {
            Some(tasks) => if unique_ids(tasks) {
                Some(settled_views(tasks))
            } else {
                None
            },
            None => None,
        },
    }
}

/// A store that was written opens again with the records it had, provided
/// that the text reads as the document it was written for.
pub proof fn lemma_store_reopens(store: TaskStore, text: Seq<char>)
    requires
        store.wf(),
        parsed_json(text) == Some(tasks_model(store@)),
    ensures
        opened(Some(text)) == Some(store@),
{
    lemma_tasks_round_trip(store@);
    lemma_settled(store@);
}

/// Opens the store that a task file holds, given what the file held, if
/// there was one. A missing file opens an empty store. The status text of
/// each record is set to what its completion flag says. Fails, with a
/// message, where the file holds no task list, or one in which two records
/// share an identifier.
pub fn open_store(content: Option<String>) -> (r: Result<TaskStore, String>)
    ensures
        match r {
            Ok(store) => store.wf() && opened(opt_text(content)) == Some(store@),
            Err(m) => opened(opt_text(content)) is None && content is Some && match stored_tasks(
                content->0@,
            ) {
                Some(tasks) => m@ == error_text(StoreError::DuplicateId),
                None => exists|d: Seq<char>| m@ == decode_failure(d),
            },
        },
{
    let text: String = match content {
        Some(text) => text,
        None => {
            return Ok(TaskStore::new());
        },
    };
    let records: Vec<Todo> = match tasks_from_json(text.as_str()) {
        Ok(records) => records,
        Err(m) => {
            return Err(m);
        },
    };
    match TaskStore::from_records(records) {
        Ok(store) => Ok(store),
        Err(e) => Err(e.message()),
    }
}

/// Writes the records of a store as the text of their JSON document, as
/// it is stored after every change.
pub fn store_to_json(store: &TaskStore) -> (r: Result<String, String>)
    ensures
        match r {
            Ok(text) => pretty_json(tasks_model(store@)) == Some(text@),
            Err(m) => pretty_json(tasks_model(store@)) is None && exists|d: Seq<char>|
                m@ == tasks_write_failure(d),
        },
{
    tasks_to_json(store.load())
}

/// Writes settings as the text of their JSON document.
pub fn save_config(config: &AppConfig) -> (r: Result<String, String>)
    ensures
        match r {
            Ok(text) => pretty_json(config_model(config@)) == Some(text@),
            Err(m) => pretty_json(config_model(config@)) is None && exists|d: Seq<char>|
                m@ == config_write_failure(d),
        },
{
    let v = config_to_value(config);
    match render_pretty(&v) {
        Ok(text) => Ok(text),
        Err(e) => {
            let detail = json_error_text(&e);
            let mut message: String = "Failed to serialize config: ".to_owned();
            message.append(detail.as_str());
            assert(message@ == config_write_failure(detail@));
            Err(message)
        },
    }
}

/// Reads settings out of the text of their JSON document, if it holds any.
pub fn config_from_json(text: &str) -> (r: Option<AppConfig>)
    ensures
        match r {
            Some(c) => stored_config(text@) == Some(c@),
            None => stored_config(text@) is None,
        },
{
    match parse_json(text) {
        Ok(v) => config_from_value(&v),
        Err(_) => None,
    }
}

/// The settings to work with, given what the settings file held, if there
/// was one to read: the stored settings, or the standard ones where the
/// file was missing, unreadable or held no settings.
pub fn load_config(content: Option<String>) -> (r: AppConfig)
    ensures
        r@ == loaded_config(opt_text(content)),
{
    match content {
        Some(text) => match config_from_json(text.as_str()) {
            Some(c) => c,
            None => AppConfig::default(),
        },
        None => AppConfig::default(),
    }
}

} // verus!
