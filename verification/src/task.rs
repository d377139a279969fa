//! The task record and the item of a task manager's listing it is read from.

use vstd::prelude::*;

verus! {

/// The status text that goes with a completion flag.
pub open spec fn status_text(completed: bool) -> Seq<char> {
    if completed {
        "completed"@
    } else {
        "pending"@
    }
}

/// The mathematical value of an optional string.
pub open spec fn opt_text(o: Option<String>) -> Option<Seq<char>> {
    match o {
        Some(s) => Some(s@),
        None => None,
    }
}

/// One to-do item.
#[derive(Debug, Clone, PartialEq, Eq)]
pub struct Todo {
    pub id: u32,
    pub text: String,
    pub status: String,
    pub description: Option<String>,
    pub due_date: Option<String>,
    pub urgent: Option<String>,
    pub completed: bool,
}

/// The mathematical value of a [`Todo`].
pub struct TodoView {
    pub id: u32,
    pub text: Seq<char>,
    pub status: Seq<char>,
    pub description: Option<Seq<char>>,
    pub due_date: Option<Seq<char>>,
    pub urgent: Option<Seq<char>>,
    pub completed: bool,
}

impl View for Todo {
    type V = TodoView;

    open spec fn view(&self) -> TodoView {
        TodoView {
            id: self.id,
            text: self.text@,
            status: self.status@,
            description: opt_text(self.description),
            due_date: opt_text(self.due_date),
            urgent: opt_text(self.urgent),
            completed: self.completed,
        }
    }
}

impl TodoView {
    /// Whether the status text says what the completion flag says.
    pub open spec fn is_consistent(self) -> bool {
        self.status == status_text(self.completed)
    }

    /// The record with its completion flag flipped and its status text following.
    pub open spec fn toggled(self) -> TodoView {
        TodoView { status: status_text(!self.completed), completed: !self.completed, ..self }
    }

    /// The record with its status text set to what its completion flag says.
    pub open spec fn settled(self) -> TodoView {
        TodoView { status: status_text(self.completed), ..self }
    }

    /// A fresh, pending record.
    pub open spec fn fresh(id: u32, text: Seq<char>) -> TodoView {
        TodoView {
            id,
            text,
            status: status_text(false),
            description: None,
            due_date: None,
            urgent: None,
            completed: false,
        }
    }
}

/// The views of a sequence of records, in order.
pub open spec fn todo_views(s: Seq<Todo>) -> Seq<TodoView> {
    Seq::new(s.len(), |i: int| s[i]@)
}

/// The records of a sequence, each with its status text set to what its
/// completion flag says.
pub open spec fn settled_views(s: Seq<TodoView>) -> Seq<TodoView> {
    Seq::new(s.len(), |i: int| s[i].settled())
}

/// An owned copy of an optional string.
pub fn copy_opt(o: &Option<String>) -> (r: Option<String>)
    ensures
        r == *o,
{
    match o {
        Some(s) => Some(s.clone()),
        None => None,
    }
}

/// The status text that goes with a completion flag, as a string.
pub fn status_of(completed: bool) -> (r: String)
    ensures
        r@ == status_text(completed),
{
    if completed {
        "completed".to_owned()
    } else {
        "pending".to_owned()
    }
}

impl Todo {
    /// A fresh, pending record with the given identifier and text.
    pub fn new(id: u32, text: String) -> (r: Todo)
        ensures
            r@ == TodoView::fresh(id, text@),
    {
        Todo {
            id,
            text,
            status: status_of(false),
            description: None,
            due_date: None,
            urgent: None,
            completed: false,
        }
    }

    /// An owned copy of this record.
    pub fn duplicate(&self) -> (r: Todo)
        ensures
            r@ == self@,
    {
        Todo {
            id: self.id,
            text: self.text.clone(),
            status: self.status.clone(),
            description: copy_opt(&self.description),
            due_date: copy_opt(&self.due_date),
            urgent: copy_opt(&self.urgent),
            completed: self.completed,
        }
    }

    /// A copy of this record with its status text set to what its
    /// completion flag says.
    pub fn settled(&self) -> (r: Todo)
        ensures
            r@ == self@.settled(),
            r@.is_consistent(),
    {
        Todo {
            id: self.id,
            text: self.text.clone(),
            status: status_of(self.completed),
            description: copy_opt(&self.description),
            due_date: copy_opt(&self.due_date),
            urgent: copy_opt(&self.urgent),
            completed: self.completed,
        }
    }

    /// Whether the status text says what the completion flag says.
    pub fn is_consistent(&self) -> (b: bool)
        ensures
            b == self@.is_consistent(),
    {
        let expected = status_of(self.completed);
        self.status == expected
    }
}

/// One entry of a task manager's listing.
#[derive(Debug, Clone, PartialEq, Eq)]
pub struct AlfredItem {
    pub title: String,
    pub subtitle: Option<String>,
    pub arg: Option<String>,
}

/// The mathematical value of an [`AlfredItem`].
pub struct ItemView {
    pub title: Seq<char>,
    pub subtitle: Option<Seq<char>>,
    pub arg: Option<Seq<char>>,
}

impl View for AlfredItem {
    type V = ItemView;

    open spec fn view(&self) -> ItemView {
        ItemView {
            title: self.title@,
            subtitle: opt_text(self.subtitle),
            arg: opt_text(self.arg),
        }
    }
}

/// The views of a sequence of listing entries, in order.
pub open spec fn item_views(s: Seq<AlfredItem>) -> Seq<ItemView> {
    Seq::new(s.len(), |i: int| s[i]@)
}

} // verus!
