//! Talking to the task manager: the arguments of each command, what the run
//! of one amounts to, and which record or entries a command is about.

use vstd::prelude::*;
use vstd::utf8::{decode_utf8, valid_utf8};
use crate::task::{item_views, todo_views, AlfredItem, ItemView, Todo, TodoView};
use crate::text::{all_digits, decimal_u32, decimal_value, digit_value, is_digit};

verus! {

/// `std::string::FromUtf8Error`, of which nothing is known but that
/// `String::from_utf8` gives one when it fails.
#[verifier::external_type_specification]
#[verifier::external_body]
pub struct ExFromUtf8Error(std::string::FromUtf8Error);

/// What `String::from_utf8_lossy` makes of a sequence of bytes.
pub uninterp spec fn lossy_text(bytes: Seq<u8>) -> Seq<char>;

/// Calls `String::from_utf8`. The contract claims that it succeeds exactly
/// on well-formed UTF-8, with the text that the bytes encode.
#[verifier::external_body]
fn text_of_bytes(bytes: Vec<u8>) -> (r: Result<String, std::string::FromUtf8Error>)
    ensures
        match r {
            Ok(s) => valid_utf8(bytes@) && s@ == decode_utf8(bytes@),
            Err(_) => !valid_utf8(bytes@),
        },
{
    String::from_utf8(bytes)
}

/// Formats a `FromUtf8Error` with its `Display` impl. Nothing is claimed of
/// the text.
#[verifier::external_body]
fn utf8_error_text(e: &std::string::FromUtf8Error) -> (r: String) {
    e.to_string()
}

/// Calls `String::from_utf8_lossy`. The contract gives the text a name,
/// `lossy_text`, and claims that it is the text that the bytes encode where
/// they are well-formed UTF-8.
#[verifier::external_body]
fn lossy_text_of_bytes(bytes: &Vec<u8>) -> (r: String)
    ensures
        r@ == lossy_text(bytes@),
        valid_utf8(bytes@) ==> r@ == decode_utf8(bytes@),
{
    String::from_utf8_lossy(bytes).into_owned()
}

/// The message for a task manager that could not be started.
pub open spec fn spawn_failure(detail: Seq<char>) -> Seq<char> {
    "执行命令失败: "@ + detail
}

/// The message for a task manager that reported failure.
pub open spec fn run_failure(detail: Seq<char>) -> Seq<char> {
    "命令执行失败: "@ + detail
}

/// The message for output that is no text.
pub open spec fn output_not_text(detail: Seq<char>) -> Seq<char> {
    "解析输出失败: "@ + detail
}

/// The message for a task manager that could not be started, given the
/// system's account of why.
pub fn spawn_error(detail: &str) -> (r: String)
    ensures
        r@ == spawn_failure(detail@),
{
    let mut message: String = "执行命令失败: ".to_owned();
    message.append(detail);
    message
}

/// What a finished run of the task manager amounts to.
///
/// A run that reported failure fails with what it wrote to its error
/// stream, whatever it printed. A run that succeeded gives what it printed,
/// and fails where that is not well-formed UTF-8.
pub fn command_result(success: bool, stdout: Vec<u8>, stderr: Vec<u8>) -> (r: Result<
    String,
    String,
>)
    ensures
        match r {
            Ok(s) => success && valid_utf8(stdout@) && s@ == decode_utf8(stdout@),
            Err(m) => if success {
                !valid_utf8(stdout@) && exists|d: Seq<char>| m@ == output_not_text(d)
            } else {
                m@ == run_failure(lossy_text(stderr@))
            },
        },
        !success && valid_utf8(stderr@) ==> r is Err && r->Err_0@ == run_failure(
            decode_utf8(stderr@),
        ),
{
    if !success {
        let mut message: String = "命令执行失败: ".to_owned();
        message.append(lossy_text_of_bytes(&stderr).as_str());
        return Err(message);
    }
    match text_of_bytes(stdout) {
        Ok(s) => Ok(s),
        Err(e) => {
            let detail = utf8_error_text(&e);
            let mut message: String = "解析输出失败: ".to_owned();
            message.append(detail.as_str());
            assert(message@ == output_not_text(detail@));
            Err(message)
        },
    }
}

/// Whether the record at `k` is the newest of `todos`: none has a greater
/// identifier, and none behind it has the same.
pub open spec fn is_newest(todos: Seq<TodoView>, k: int) -> bool {
    &&& 0 <= k < todos.len()
    &&& forall|j: int| 0 <= j < todos.len() ==> (#[trigger] todos[j]).id <= todos[k].id
    &&& forall|j: int| k < j < todos.len() ==> (#[trigger] todos[j]).id < todos[k].id
}

/// The message for a listing in which a new record was sought and none found.
pub open spec fn nothing_created() -> Seq<char> {
    "未能创建任务"@
}

/// The record with the greatest identifier, and of several such the last:
/// the one that the task manager created last. Fails on an empty listing.
pub fn newest_todo(todos: Vec<Todo>) -> (r: Result<Todo, String>)
    ensures
        match r {
            Ok(t) => exists|k: int| is_newest(todo_views(todos@), k) && t@ == todos[k]@,
            Err(m) => todos.len() == 0 && m@ == nothing_created(),
        },
{
    if todos.len() == 0 {
        return Err("未能创建任务".to_owned());
    }
    let ghost all = todo_views(todos@);
    let mut best: usize = 0;
    let mut i: usize = 1;
    while i < todos.len()
        invariant
            1 <= i <= todos.len(),
            best < i,
            all == todo_views(todos@),
            forall|j: int| 0 <= j < i ==> (#[trigger] all[j]).id <= all[best as int].id,
            forall|j: int| best < j < i ==> (#[trigger] all[j]).id < all[best as int].id,
        decreases todos.len() - i,
    {
        if todos[i].id >= todos[best].id {
            best = i;
        }
        i += 1;
    }
    assert(is_newest(all, best as int));
    Ok(todos[best].duplicate())
}

/// The delete targets that a listing names: the `arg` of each entry that
/// has one, in order.
pub open spec fn targets_of(items: Seq<ItemView>) -> Seq<Seq<char>>
    decreases items.len(),
{
    if items.len() == 0 {
        Seq::empty()
    } else {
        let front = targets_of(items.drop_last());
        match items.last().arg {
            Some(a) => front.push(a),
            None => front,
        }
    }
}

/// The views of a list of strings, in order.
pub open spec fn text_views(s: Seq<String>) -> Seq<Seq<char>> {
    Seq::new(s.len(), |i: int| s[i]@)
}

/// The delete targets that a listing of completed tasks names.
pub fn delete_targets(items: &Vec<AlfredItem>) -> (r: Vec<String>)
    ensures
        text_views(r@) == targets_of(item_views(items@)),
{
    let ghost all = item_views(items@);
    let mut out: Vec<String> = Vec::new();
    let mut i: usize = 0;
    assert(all.take(0) =~= Seq::<ItemView>::empty());
    assert(text_views(out@) =~= Seq::<Seq<char>>::empty());
    while i < items.len()
        invariant
            i <= items.len(),
            all == item_views(items@),
            text_views(out@) == targets_of(all.take(i as int)),
        decreases items.len() - i,
    {
        let ghost before = text_views(out@);
        assert(all.take(i + 1).drop_last() =~= all.take(i as int));
        assert(all.take(i + 1).last() == items[i as int]@);
        match &items[i].arg {
            Some(a) => {
                out.push(a.clone());
                assert(text_views(out@) =~= before.push(a@));
            },
            None => {},
        }
        i += 1;
    }
    assert(all.take(items.len() as int) =~= all);
    out
}

/// The character that stands for a digit.
pub open spec fn digit_char(d: nat) -> char
    recommends
        d < 10,
{
    ('0' as u32 + d as u32) as char
}

/// A number in base ten, without sign or leading zeros.
pub open spec fn decimal_digits(n: nat) -> Seq<char>
    decreases n,
{
    if n < 10 {
        seq![digit_char(n)]
    } else {
        decimal_digits(n / 10).push(digit_char(n % 10))
    }
}

/// A number in base ten is a string of digits that denotes that number.
pub proof fn lemma_decimal_digits(n: nat)
    ensures
        decimal_digits(n).len() > 0,
        all_digits(decimal_digits(n)),
        decimal_value(decimal_digits(n)) == n,
        decimal_digits(n)[0] != '+',
    decreases n,
{
    if n < 10 {
        let s = decimal_digits(n);
        assert(s.drop_last() =~= Seq::<char>::empty());
        assert(decimal_value(s.drop_last()) == 0);
        assert(digit_value(s.last()) == n);
    } else {
        lemma_decimal_digits(n / 10);
        let front = decimal_digits(n / 10);
        let s = decimal_digits(n);
        assert(s.drop_last() =~= front);
        assert(digit_value(s.last()) == n % 10);
        assert forall|i: int| 0 <= i < s.len() implies is_digit(#[trigger] s[i]) by {
            if i < front.len() {
                assert(s[i] == front[i]);
            }
        }
        assert(s[0] == front[0]);
    }
}

/// Reading back an identifier that was written in base ten gives that identifier.
pub proof fn lemma_decimal_round_trip(id: u32)
    ensures
        decimal_u32(decimal_digits(id as nat)) == Some(id),
{
    lemma_decimal_digits(id as nat);
}

/// The one-character string for a digit.
fn digit_text(d: u32) -> (r: &'static str)
    requires
        d < 10,
    ensures
        r@ == seq![digit_char(d as nat)],
{
    proof {
        reveal_strlit("0");
        reveal_strlit("1");
        reveal_strlit("2");
        reveal_strlit("3");
        reveal_strlit("4");
        reveal_strlit("5");
        reveal_strlit("6");
        reveal_strlit("7");
        reveal_strlit("8");
        reveal_strlit("9");
    }
    let r: &'static str = match d {
        0 => "0",
        1 => "1",
        2 => "2",
        3 => "3",
        4 => "4",
        5 => "5",
        6 => "6",
        7 => "7",
        8 => "8",
        _ => "9",
    };
    assert(r@ =~= seq![digit_char(d as nat)]);
    r
}

/// Appends `n` in base ten to `out`.
fn push_decimal(out: &mut String, n: u32)
    ensures
        final(out)@ == old(out)@ + decimal_digits(n as nat),
    decreases n,
{
    let ghost before = out@;
    if n >= 10 {
        push_decimal(out, n / 10);
    }
    out.append(digit_text(n % 10));
    assert(out@ =~= before + decimal_digits(n as nat));
}

/// An identifier in base ten, as the task manager takes it.
pub fn id_text(id: u32) -> (r: String)
    ensures
        r@ == decimal_digits(id as nat),
        decimal_u32(r@) == Some(id),
{
    let mut r: String = String::new();
    push_decimal(&mut r, id);
    proof {
        lemma_decimal_round_trip(id);
        assert(r@ =~= decimal_digits(id as nat));
    }
    r
}

/// The arguments that list the open tasks.
pub fn list_args() -> (r: Vec<String>)
    ensures
        text_views(r@) == seq!["list"@],
{
    let mut r: Vec<String> = Vec::new();
    r.push("list".to_owned());
    assert(text_views(r@) =~= seq!["list"@]);
    r
}

/// The arguments that list the completed tasks.
pub fn completed_args() -> (r: Vec<String>)
    ensures
        text_views(r@) == seq!["back"@],
{
    let mut r: Vec<String> = Vec::new();
    r.push("back".to_owned());
    assert(text_views(r@) =~= seq!["back"@]);
    r
}

/// The arguments that create a task from a description in plain words.
pub fn add_args(text: &str) -> (r: Vec<String>)
    ensures
        text_views(r@) == seq![text@],
{
    let mut r: Vec<String> = Vec::new();
    r.push(text.to_owned());
    assert(text_views(r@) =~= seq![text@]);
    r
}

/// The arguments that toggle the completion of the task `id`.
pub fn complete_args(id: u32) -> (r: Vec<String>)
    ensures
        text_views(r@) == seq!["complete"@, decimal_digits(id as nat)],
{
    let mut r: Vec<String> = Vec::new();
    r.push("complete".to_owned());
    r.push(id_text(id));
    assert(text_views(r@) =~= seq!["complete"@, decimal_digits(id as nat)]);
    r
}

/// The arguments that delete the task that `target` names.
pub fn delete_args(target: &str) -> (r: Vec<String>)
    ensures
        text_views(r@) == seq!["delete"@, target@],
{
    let mut r: Vec<String> = Vec::new();
    r.push("delete".to_owned());
    r.push(target.to_owned());
    assert(text_views(r@) =~= seq!["delete"@, target@]);
    r
}

} // verus!
