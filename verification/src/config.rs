//! The settings of the application, and where its files live.

use vstd::prelude::*;
use crate::task::opt_text;

verus! {

/// The settings that the front end edits and the task manager is run with.
#[derive(Debug, Clone, PartialEq, Eq)]
pub struct AppConfig {
    pub api_key: Option<String>,
    pub language: Option<String>,
    pub llm_base_url: Option<String>,
    pub llm_model: Option<String>,
}

/// The mathematical value of an [`AppConfig`].
pub struct ConfigView {
    pub api_key: Option<Seq<char>>,
    pub language: Option<Seq<char>>,
    pub llm_base_url: Option<Seq<char>>,
    pub llm_model: Option<Seq<char>>,
}

impl View for AppConfig {
    type V = ConfigView;

    open spec fn view(&self) -> ConfigView {
        ConfigView {
            api_key: opt_text(self.api_key),
            language: opt_text(self.language),
            llm_base_url: opt_text(self.llm_base_url),
            llm_model: opt_text(self.llm_model),
        }
    }
}

/// The code of the language that is used where none is chosen: Chinese.
pub open spec fn standard_language() -> Seq<char> {
    "zh"@
}

impl ConfigView {
    /// The settings of a fresh installation: the standard language, and
    /// nothing else set.
    pub open spec fn standard() -> ConfigView {
        ConfigView {
            api_key: None,
            language: Some(standard_language()),
            llm_base_url: None,
            llm_model: None,
        }
    }
}

impl Default for AppConfig {
    fn default() -> (r: AppConfig)
        ensures
            r@ == ConfigView::standard(),
    {
        AppConfig {
            api_key: None,
            language: Some("zh".to_owned()),
            llm_base_url: None,
            llm_model: None,
        }
    }
}

/// The views of a list of name-value pairs, in order.
pub open spec fn pair_views(s: Seq<(String, String)>) -> Seq<(Seq<char>, Seq<char>)> {
    Seq::new(s.len(), |i: int| (s[i].0@, s[i].1@))
}

/// The environment entry for one setting: the pair of `name` and the value
/// where the setting is present and not empty, and nothing otherwise.
pub open spec fn env_entry(name: Seq<char>, value: Option<Seq<char>>) -> Seq<
    (Seq<char>, Seq<char>),
> {
    match value {
        Some(v) => if v.len() > 0 {
            seq![(name, v)]
        } else {
            Seq::empty()
        },
        None => Seq::empty(),
    }
}

/// The environment that the task manager is run with under the settings `c`.
pub open spec fn env_of(c: ConfigView) -> Seq<(Seq<char>, Seq<char>)> {
    env_entry("TODO_LANG"@, c.language) + env_entry("API_KEY"@, c.api_key) + env_entry(
        "LLM_BASE_URL"@,
        c.llm_base_url,
    ) + env_entry("LLM_MODEL"@, c.llm_model)
}

/// Appends the environment entry for one setting to `env`.
fn push_entry(env: &mut Vec<(String, String)>, name: &str, value: &Option<String>)
    ensures
        pair_views(final(env)@) == pair_views(old(env)@) + env_entry(name@, opt_text(*value)),
{
    let ghost before = pair_views(env@);
    match value {
        Some(v) => {
            if !v.as_str().is_empty() {
                env.push((name.to_owned(), v.clone()));
                assert(pair_views(env@) =~= before + seq![(name@, v@)]);
            } else {
                assert(pair_views(env@) =~= before + Seq::empty());
            }
        },
        None => {
            assert(pair_views(env@) =~= before + Seq::empty());
        },
    }
}

/// The environment variables to run the task manager with: the language,
/// the API key, the LLM endpoint and the LLM model, each under its name and
/// only where it is set to something.
pub fn command_env(config: &AppConfig) -> (env: Vec<(String, String)>)
    ensures
        pair_views(env@) == env_of(config@),
{
    let mut env: Vec<(String, String)> = Vec::new();
    assert(pair_views(env@) =~= Seq::empty());
    push_entry(&mut env, "TODO_LANG", &config.language);
    push_entry(&mut env, "API_KEY", &config.api_key);
    push_entry(&mut env, "LLM_BASE_URL", &config.llm_base_url);
    push_entry(&mut env, "LLM_MODEL", &config.llm_model);
    assert(pair_views(env@) =~= env_of(config@));
    env
}

/// The platforms that a task manager binary is shipped for.
#[derive(Debug, Clone, Copy, PartialEq, Eq, Structural)]
pub enum Platform {
    MacArm,
    MacIntel,
    Linux,
    Other,
}

/// The resource name of the task manager binary for a platform.
pub open spec fn binary_name(platform: Platform) -> Seq<char> {
    match platform {
        Platform::MacArm => "binaries/todo-aarch64-apple-darwin"@,
        Platform::MacIntel => "binaries/todo-x86_64-apple-darwin"@,
        Platform::Linux => "binaries/todo-x86_64-unknown-linux-gnu"@,
        Platform::Other => "binaries/todo"@,
    }
}

/// The message for a binary that could not be found among the resources.
pub open spec fn resolve_failure(name: Seq<char>) -> Seq<char> {
    "Failed to resolve "@ + name + " binary path"@
}

/// The resource name of the task manager binary for a platform.
pub fn todo_binary_name(platform: Platform) -> (r: &'static str)
    ensures
        r@ == binary_name(platform),
{
    match platform {
        Platform::MacArm => "binaries/todo-aarch64-apple-darwin",
        Platform::MacIntel => "binaries/todo-x86_64-apple-darwin",
        Platform::Linux => "binaries/todo-x86_64-unknown-linux-gnu",
        Platform::Other => "binaries/todo",
    }
}

/// The path of the task manager binary, given what looking up its resource
/// name gave. Fails, naming the binary, where the lookup gave nothing.
pub fn get_todo_binary_path(platform: Platform, resolved: Option<String>) -> (r: Result<
    String,
    String,
>)
    ensures
        match resolved {
            Some(p) => r == Ok::<String, String>(p),
            None => r is Err && r->Err_0@ == resolve_failure(binary_name(platform)),
        },
{
    match resolved {
        Some(p) => Ok(p),
        None => {
            let mut message: String = "Failed to resolve ".to_owned();
            message.append(todo_binary_name(platform));
            message.append(" binary path");
            Err(message)
        },
    }
}

/// `name` as an entry of the directory `dir`: the two joined by one `/`,
/// which `dir` may bring along itself.
pub open spec fn joined(dir: Seq<char>, name: Seq<char>) -> Seq<char> {
    if dir.len() == 0 || dir.last() == '/' {
        dir + name
    } else {
        dir + seq!['/'] + name
    }
}

/// The path of the entry `name` of the directory `dir`.
pub fn join_path(dir: &str, name: &str) -> (r: String)
    ensures
        r@ == joined(dir@, name@),
{
    let n: usize = dir.unicode_len();
    let mut r: String = dir.to_owned();
    if n > 0 && dir.get_char(n - 1) != '/' {
        proof {
            reveal_strlit("/");
            assert("/"@ =~= seq!['/']);
        }
        r.append("/");
    }
    r.append(name);
    r
}

/// The message for a user without a home directory.
pub open spec fn no_home() -> Seq<char> {
    "无法获取用户主目录"@
}

/// The directory that holds the task files: `.todo` in the user's home
/// directory. Fails where the user has none.
pub fn get_todo_dir(home: Option<String>) -> (r: Result<String, String>)
    ensures
        match home {
            Some(h) => r is Ok && r->Ok_0@ == joined(h@, ".todo"@),
            None => r is Err && r->Err_0@ == no_home(),
        },
{
    match home {
        Some(h) => Ok(join_path(h.as_str(), ".todo")),
        None => Err("无法获取用户主目录".to_owned()),
    }
}

/// The path of the task file: `todos.json` in the directory that holds the
/// task files. Fails where the user has no home directory.
pub fn get_todos_file_path(home: Option<String>) -> (r: Result<String, String>)
    ensures
        match home {
            Some(h) => r is Ok && r->Ok_0@ == joined(joined(h@, ".todo"@), "todos.json"@),
            None => r is Err && r->Err_0@ == no_home(),
        },
{
    match get_todo_dir(home) {
        Ok(dir) => Ok(join_path(dir.as_str(), "todos.json")),
        Err(e) => Err(e),
    }
}

/// The path of the settings file: `config.json` in the application's data
/// directory. Fails where the application has none.
pub fn get_config_path(app_dir: Option<String>) -> (r: Result<String, String>)
    ensures
        match app_dir {
            Some(d) => r is Ok && r->Ok_0@ == joined(d@, "config.json"@),
            None => r is Err && r->Err_0@ == "Failed to get app data directory"@,
        },
{
    match app_dir {
        Some(d) => Ok(join_path(d.as_str(), "config.json")),
        None => Err("Failed to get app data directory".to_owned()),
    }
}

/// What to write into a task file that does not exist yet: the empty
/// listing. `None` where the file exists, which is then left alone.
pub fn initialize_todo_files(exists: bool) -> (r: Option<String>)
    ensures
        match r {
            Some(s) => !exists && s@ == "{\"items\":[]}"@,
            None => exists,
        },
{
    if exists {
        None
    } else {
        Some("{\"items\":[]}".to_owned())
    }
}

} // verus!
