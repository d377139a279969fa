//! The task store: an ordered collection of records, each with an identifier
//! of its own.
//!
//! A new record gets the identifier that follows the greatest one in the
//! store, so the store never holds one identifier twice.

use vstd::prelude::*;
use crate::task::{settled_views, status_of, todo_views, Todo, TodoView};

verus! {

/// Whether some record of `tasks` has the identifier `id`.
pub open spec fn has_id(tasks: Seq<TodoView>, id: u32) -> bool {
    exists|i: int| 0 <= i < tasks.len() && (#[trigger] tasks[i]).id == id
}

/// Whether no two records of `tasks` share an identifier.
pub open spec fn unique_ids(tasks: Seq<TodoView>) -> bool {
    forall|i: int, j: int|
        0 <= i < tasks.len() && 0 <= j < tasks.len() && i != j ==> (#[trigger] tasks[i]).id != (
        #[trigger] tasks[j]).id
}

/// Whether the status text of every record says what its completion flag says.
pub open spec fn all_consistent(tasks: Seq<TodoView>) -> bool {
    forall|i: int| 0 <= i < tasks.len() ==> (#[trigger] tasks[i]).is_consistent()
}

/// What a store may hold: consistent records with identifiers of their own.
pub open spec fn valid_records(tasks: Seq<TodoView>) -> bool {
    unique_ids(tasks) && all_consistent(tasks)
}

/// The greatest identifier in `tasks`, or 0 where there is no record.
pub open spec fn max_id(tasks: Seq<TodoView>) -> nat
    decreases tasks.len(),
{
    if tasks.len() == 0 {
        0
    } else {
        let front = max_id(tasks.drop_last());
        if tasks.last().id > front {
            tasks.last().id as nat
        } else {
            front
        }
    }
}

/// The identifier that the next new record gets.
pub open spec fn next_id(tasks: Seq<TodoView>) -> nat {
    max_id(tasks) + 1
}

/// The test that the records with another identifier than `id` pass.
pub open spec fn other_than(id: u32) -> spec_fn(TodoView) -> bool {
    |t: TodoView| t.id != id
}

/// The test that the records not yet completed pass.
pub open spec fn still_open() -> spec_fn(TodoView) -> bool {
    |t: TodoView| !t.completed
}

/// `tasks` with a fresh record for `text` at its end.
pub open spec fn with_added(tasks: Seq<TodoView>, text: Seq<char>) -> Seq<TodoView> {
    tasks.push(TodoView::fresh(next_id(tasks) as u32, text))
}

/// `tasks` with the record of identifier `id` toggled.
pub open spec fn with_toggled(tasks: Seq<TodoView>, id: u32) -> Seq<TodoView> {
    Seq::new(
        tasks.len(),
        |i: int|
            if tasks[i].id == id {
                tasks[i].toggled()
            } else {
                tasks[i]
            },
    )
}

/// `tasks` without the record of identifier `id`.
pub open spec fn without_id(tasks: Seq<TodoView>, id: u32) -> Seq<TodoView> {
    tasks.filter(other_than(id))
}

/// `tasks` without the completed records.
pub open spec fn without_completed(tasks: Seq<TodoView>) -> Seq<TodoView> {
    tasks.filter(still_open())
}

/// Why the store refused an operation.
#[derive(Debug, Clone, Copy, PartialEq, Eq, Structural)]
pub enum StoreError {
    /// No record has the identifier that was asked for.
    NotFound,
    /// Two records share an identifier.
    DuplicateId,
    /// The greatest identifier there is has been given out.
    IdsExhausted,
}

/// What a refusal is reported as.
pub open spec fn error_text(e: StoreError) -> Seq<char> {
    match e {
        StoreError::NotFound => "todo not found"@,
        StoreError::DuplicateId => "two todos share an id"@,
        StoreError::IdsExhausted => "no id is left for a new todo"@,
    }
}

impl StoreError {
    /// The message that reports this refusal.
    pub fn message(&self) -> (r: String)
        ensures
            r@ == error_text(*self),
    {
        match self {
            StoreError::NotFound => "todo not found".to_owned(),
            StoreError::DuplicateId => "two todos share an id".to_owned(),
            StoreError::IdsExhausted => "no id is left for a new todo".to_owned(),
        }
    }
}

/// Setting the status texts leaves the identifiers and the flags as they
/// are, makes every record consistent, and changes nothing where every
/// record was consistent already.
pub proof fn lemma_settled(tasks: Seq<TodoView>)
    ensures
        all_consistent(settled_views(tasks)),
        unique_ids(tasks) <==> unique_ids(settled_views(tasks)),
        all_consistent(tasks) ==> settled_views(tasks) == tasks,
{
    let settled = settled_views(tasks);
    if unique_ids(tasks) {
        assert forall|i: int, j: int|
            0 <= i < settled.len() && 0 <= j < settled.len() && i != j implies (
        #[trigger] settled[i]).id != (#[trigger] settled[j]).id by {
            assert(tasks[i].id != tasks[j].id);
        }
    }
    if unique_ids(settled) {
        assert forall|i: int, j: int|
            0 <= i < tasks.len() && 0 <= j < tasks.len() && i != j implies (#[trigger] tasks[i]).id
            != (#[trigger] tasks[j]).id by {
            assert(settled[i].id != settled[j].id);
        }
    }
    if all_consistent(tasks) {
        assert forall|i: int| 0 <= i < tasks.len() implies settled[i] == tasks[i] by {
            assert(tasks[i].is_consistent());
        }
        assert(settled =~= tasks);
    }
}

/// An ordered collection of task records.
#[derive(Debug)]
pub struct TaskStore {
    tasks: Vec<Todo>,
}

impl View for TaskStore {
    type V = Seq<TodoView>;

    closed spec fn view(&self) -> Seq<TodoView> {
        todo_views(self.tasks@)
    }
}

/// No identifier in `tasks` exceeds `max_id(tasks)`, and some record holds it
/// unless there is none.
pub proof fn lemma_max_id(tasks: Seq<TodoView>)
    ensures
        forall|i: int| 0 <= i < tasks.len() ==> (#[trigger] tasks[i]).id <= max_id(tasks),
        max_id(tasks) <= u32::MAX,
        tasks.len() > 0 ==> has_id(tasks, max_id(tasks) as u32),
        tasks.len() == 0 ==> max_id(tasks) == 0,
    decreases tasks.len(),
{
    if tasks.len() > 0 {
        let front = tasks.drop_last();
        lemma_max_id(front);
        assert forall|i: int| 0 <= i < tasks.len() implies (#[trigger] tasks[i]).id <= max_id(
            tasks,
        ) by {
            if i < front.len() {
                assert(front[i] == tasks[i]);
            }
        }
        if tasks.last().id > max_id(front) {
            assert(tasks[tasks.len() - 1].id == max_id(tasks));
        } else {
            if front.len() > 0 {
                let k = choose|k: int| 0 <= k < front.len() && (#[trigger] front[k]).id == max_id(
                    front,
                ) as u32;
                assert(tasks[k] == front[k]);
            } else {
                assert(tasks[tasks.len() - 1].id == 0);
            }
        }
    }
}

/// Filtering a prefix that is one longer keeps or drops the one record more.
pub proof fn lemma_filter_step(s: Seq<TodoView>, keep: spec_fn(TodoView) -> bool, i: int)
    requires
        0 <= i < s.len(),
    ensures
        s.take(i + 1).filter(keep) == if keep(s[i]) {
            s.take(i).filter(keep).push(s[i])
        } else {
            s.take(i).filter(keep)
        },
{
    reveal(Seq::filter);
    assert(s.take(i + 1).drop_last() =~= s.take(i));
}

/// The greatest identifier is the one bound on the identifiers that a record holds.
pub proof fn lemma_max_id_is(tasks: Seq<TodoView>, m: nat)
    requires
        forall|i: int| 0 <= i < tasks.len() ==> (#[trigger] tasks[i]).id <= m,
        tasks.len() > 0 ==> m <= u32::MAX && has_id(tasks, m as u32),
        tasks.len() == 0 ==> m == 0,
    ensures
        max_id(tasks) == m,
{
    lemma_max_id(tasks);
    if tasks.len() > 0 {
        let k = choose|k: int| 0 <= k < tasks.len() && (#[trigger] tasks[k]).id == m as u32;
        assert(tasks[k].id <= max_id(tasks));
        let j = choose|j: int|
            0 <= j < tasks.len() && (#[trigger] tasks[j]).id == max_id(tasks) as u32;
        assert(tasks[j].id <= m);
    }
}

/// Adding a record raises the greatest identifier by one.
pub proof fn lemma_add_raises_max(tasks: Seq<TodoView>, text: Seq<char>)
    requires
        max_id(tasks) < u32::MAX,
    ensures
        max_id(with_added(tasks, text)) == max_id(tasks) + 1,
        with_added(tasks, text).last().id == next_id(tasks),
        !has_id(tasks, next_id(tasks) as u32),
        unique_ids(tasks) ==> unique_ids(with_added(tasks, text)),
{
    lemma_max_id(tasks);
    let after = with_added(tasks, text);
    assert(after.drop_last() =~= tasks);
    if unique_ids(tasks) {
        assert forall|i: int, j: int|
            0 <= i < after.len() && 0 <= j < after.len() && i != j implies (#[trigger] after[i]).id
            != (#[trigger] after[j]).id by {
            if i < tasks.len() {
                assert(after[i] == tasks[i]);
            }
            if j < tasks.len() {
                assert(after[j] == tasks[j]);
            }
        }
    }
}

/// Deleting never raises the greatest identifier, and leaves it as it is
/// unless the record that holds it is the one deleted.
pub proof fn lemma_delete_keeps_max(tasks: Seq<TodoView>, id: u32)
    ensures
        max_id(without_id(tasks, id)) <= max_id(tasks),
        !(has_id(tasks, id) && id == max_id(tasks)) ==> max_id(without_id(tasks, id)) == max_id(
            tasks,
        ),
{
    let keep = other_than(id);
    let rest = tasks.filter(keep);
    lemma_max_id(tasks);
    lemma_max_id(rest);
    tasks.lemma_filter_len(keep);
    assert forall|k: int| 0 <= k < rest.len() implies (#[trigger] rest[k]).id <= max_id(tasks) by {
        assert(rest.contains(rest[k]));
        tasks.lemma_filter_contains_rev(keep, rest[k]);
        let j = choose|j: int| 0 <= j < tasks.len() && tasks[j] == rest[k];
        assert(tasks[j].id <= max_id(tasks));
    }
    if rest.len() > 0 {
        let j = choose|j: int|
            0 <= j < rest.len() && (#[trigger] rest[j]).id == max_id(rest) as u32;
        assert(rest[j].id <= max_id(tasks));
    }
    if !(has_id(tasks, id) && id == max_id(tasks)) {
        if tasks.len() > 0 {
            let j = choose|j: int|
                0 <= j < tasks.len() && (#[trigger] tasks[j]).id == max_id(tasks) as u32;
            assert(keep(tasks[j]));
            tasks.lemma_filter_contains(keep, j);
            let k = choose|k: int| 0 <= k < rest.len() && rest[k] == tasks[j];
            assert(rest[k].id == max_id(tasks) as u32);
        }
        lemma_max_id_is(rest, max_id(tasks));
    }
}

/// Toggling a record twice gives back the record, where its status text
/// said what its completion flag said.
pub proof fn lemma_toggled_twice(t: TodoView)
    requires
        t.is_consistent(),
    ensures
        t.toggled().toggled() == t,
        t.toggled().is_consistent(),
        t.toggled().completed != t.completed,
{
}

/// Toggling the same identifier twice gives back the collection: every
/// completion flag and every status text is as it was.
pub proof fn lemma_toggle_twice(tasks: Seq<TodoView>, id: u32)
    requires
        all_consistent(tasks),
    ensures
        with_toggled(with_toggled(tasks, id), id) == tasks,
{
    let once = with_toggled(tasks, id);
    let twice = with_toggled(once, id);
    assert forall|i: int| 0 <= i < tasks.len() implies twice[i] == tasks[i] by {
        assert(tasks[i].is_consistent());
        lemma_toggled_twice(tasks[i]);
    }
    assert(twice =~= tasks);
}

/// Two toggles of one identifier, one after the other, leave a store with
/// the records it had: every completion flag and every status text is as
/// it was.
pub proof fn lemma_store_toggle_twice(
    before: TaskStore,
    between: TaskStore,
    after: TaskStore,
    id: u32,
)
    requires
        before.wf(),
        between@ == with_toggled(before@, id),
        after@ == with_toggled(between@, id),
    ensures
        after@ == before@,
{
    lemma_toggle_twice(before@, id);
}

/// Clearing the completed records keeps exactly the open ones: every
/// record left is open and stood in the collection, and every open record
/// of the collection is left.
pub proof fn lemma_clear_keeps_open(tasks: Seq<TodoView>)
    ensures
        forall|k: int|
            0 <= k < without_completed(tasks).len() ==> !(#[trigger] without_completed(
                tasks,
            )[k]).completed && tasks.contains(without_completed(tasks)[k]),
        forall|i: int|
            0 <= i < tasks.len() && !(#[trigger] tasks[i]).completed ==> without_completed(
                tasks,
            ).contains(tasks[i]),
        without_completed(without_completed(tasks)) == without_completed(tasks),
{
    let keep = still_open();
    let rest = tasks.filter(keep);
    assert forall|k: int| 0 <= k < rest.len() implies !(#[trigger] rest[k]).completed
        && tasks.contains(rest[k]) by {
        tasks.lemma_filter_pred(keep, k);
        assert(rest.contains(rest[k]));
        tasks.lemma_filter_contains_rev(keep, rest[k]);
    }
    assert forall|i: int|
        0 <= i < tasks.len() && !(#[trigger] tasks[i]).completed implies rest.contains(tasks[i]) by {
        tasks.lemma_filter_contains(keep, i);
    }
    lemma_filter_all(rest, keep);
}

/// A filter keeps a sequence as it is where every record passes its test.
pub proof fn lemma_filter_all(s: Seq<TodoView>, keep: spec_fn(TodoView) -> bool)
    requires
        forall|i: int| 0 <= i < s.len() ==> keep(#[trigger] s[i]),
    ensures
        s.filter(keep) == s,
    decreases s.len(),
{
    reveal(Seq::filter);
    if s.len() > 0 {
        let front = s.drop_last();
        assert forall|i: int| 0 <= i < front.len() implies keep(#[trigger] front[i]) by {
            assert(front[i] == s[i]);
        }
        lemma_filter_all(front, keep);
        assert(front.push(s.last()) =~= s);
    }
}

/// One step in the life of a collection of records.
pub enum StoreOp {
    /// A record for this text is added.
    Add(Seq<char>),
    /// The record of this identifier is deleted, if there is one.
    Delete(u32),
}

/// Whether a record can still be added: an identifier is left to follow
/// the greatest one in the collection.
pub open spec fn has_room(tasks: Seq<TodoView>) -> bool {
    max_id(tasks) < u32::MAX
}

/// The collection after one step. An addition for which no identifier is
/// left changes nothing.
pub open spec fn after(tasks: Seq<TodoView>, op: StoreOp) -> Seq<TodoView> {
    match op {
        StoreOp::Add(text) => if has_room(tasks) {
            with_added(tasks, text)
        } else {
            tasks
        },
        StoreOp::Delete(id) => without_id(tasks, id),
    }
}

/// The collection after a sequence of steps.
pub open spec fn after_all(tasks: Seq<TodoView>, ops: Seq<StoreOp>) -> Seq<TodoView>
    decreases ops.len(),
{
    if ops.len() == 0 {
        tasks
    } else {
        after(after_all(tasks, ops.drop_last()), ops.last())
    }
}

/// The identifiers that a sequence of steps assigns, in the order of the steps.
pub open spec fn assigned_ids(tasks: Seq<TodoView>, ops: Seq<StoreOp>) -> Seq<nat>
    decreases ops.len(),
{
    if ops.len() == 0 {
        Seq::empty()
    } else {
        let front = assigned_ids(tasks, ops.drop_last());
        let state = after_all(tasks, ops.drop_last());
        match ops.last() {
            StoreOp::Add(_) => if has_room(state) {
                front.push(next_id(state))
            } else {
                front
            },
            StoreOp::Delete(_) => front,
        }
    }
}

/// The greatest identifier that the collection has held at any time up to
/// the end of a sequence of steps.
pub open spec fn high_water(tasks: Seq<TodoView>, ops: Seq<StoreOp>) -> nat
    decreases ops.len(),
{
    if ops.len() == 0 {
        max_id(tasks)
    } else {
        let before = high_water(tasks, ops.drop_last());
        let now = max_id(after_all(tasks, ops));
        if now > before {
            now
        } else {
            before
        }
    }
}

/// Whether every addition of a sequence of steps finds the newest record
/// in place: the greatest identifier in the collection is then the
/// greatest that the collection has ever held.
pub open spec fn adds_find_newest(tasks: Seq<TodoView>, ops: Seq<StoreOp>) -> bool {
    forall|k: int|
        0 <= k < ops.len() && (#[trigger] ops[k]) is Add ==> max_id(
            after_all(tasks, ops.take(k)),
        ) == high_water(tasks, ops.take(k))
}

/// Over any sequence of additions and deletions in which every addition
/// finds the newest record in place, the identifiers assigned are strictly
/// increasing, and all of them are greater than every identifier that the
/// collection started with: none is assigned twice.
pub proof fn lemma_ids_increase(tasks: Seq<TodoView>, ops: Seq<StoreOp>)
    requires
        adds_find_newest(tasks, ops),
    ensures
        max_id(tasks) <= high_water(tasks, ops),
        max_id(after_all(tasks, ops)) <= high_water(tasks, ops),
        forall|i: int|
            0 <= i < assigned_ids(tasks, ops).len() ==> max_id(tasks) < (#[trigger] assigned_ids(
                tasks,
                ops,
            )[i]) <= high_water(tasks, ops),
        forall|i: int, j: int|
            0 <= i < j < assigned_ids(tasks, ops).len() ==> (#[trigger] assigned_ids(tasks, ops)[i])
                < (#[trigger] assigned_ids(tasks, ops)[j]),
    decreases ops.len(),
{
    if ops.len() > 0 {
        let front = ops.drop_last();
        assert forall|k: int| 0 <= k < front.len() && (#[trigger] front[k]) is Add implies max_id(
            after_all(tasks, front.take(k)),
        ) == high_water(tasks, front.take(k)) by {
            assert(front.take(k) =~= ops.take(k));
            assert(front[k] == ops[k]);
        }
        lemma_ids_increase(tasks, front);
        let state = after_all(tasks, front);
        let before = assigned_ids(tasks, front);
        let ids = assigned_ids(tasks, ops);
        assert(ops.take(ops.len() - 1) =~= front);
        match ops.last() {
            StoreOp::Add(text) => if has_room(state) {
                assert(ops[ops.len() - 1] is Add);
                lemma_add_raises_max(state, text);
                assert(ids == before.push(next_id(state)));
                assert forall|i: int| 0 <= i < ids.len() implies max_id(tasks) < (#[trigger] ids[i])
                    <= high_water(tasks, ops) by {
                    if i < before.len() {
                        assert(ids[i] == before[i]);
                    }
                }
                assert forall|i: int, j: int| 0 <= i < j < ids.len() implies (#[trigger] ids[i]) < (
                #[trigger] ids[j]) by {
                    assert(ids[i] == before[i]);
                    if j < before.len() {
                        assert(ids[j] == before[j]);
                    }
                }
            },
            StoreOp::Delete(id) => {},
        }
    }
}

/// Deleting the record that was added last frees its identifier: the
/// collection is as it was before the addition, and the next addition is
/// given the same identifier again.
pub proof fn lemma_delete_newest_frees_id(tasks: Seq<TodoView>, text: Seq<char>)
    requires
        max_id(tasks) < u32::MAX,
    ensures
        without_id(with_added(tasks, text), next_id(tasks) as u32) == tasks,
        next_id(without_id(with_added(tasks, text), next_id(tasks) as u32)) == next_id(tasks),
{
    let id = next_id(tasks) as u32;
    let keep = other_than(id);
    let added = with_added(tasks, text);
    lemma_max_id(tasks);
    assert(added.drop_last() =~= tasks);
    assert(!keep(added.last()));
    assert(added.filter(keep) == tasks.filter(keep)) by {
        reveal(Seq::filter);
    }
    lemma_filter_all(tasks, keep);
}

/// A filter that drops nothing keeps only records that pass its test.
pub proof fn lemma_filter_full(s: Seq<TodoView>, keep: spec_fn(TodoView) -> bool)
    requires
        s.filter(keep).len() == s.len(),
    ensures
        forall|i: int| 0 <= i < s.len() ==> keep(#[trigger] s[i]),
    decreases s.len(),
{
    reveal(Seq::filter);
    if s.len() > 0 {
        s.drop_last().lemma_filter_len(keep);
        lemma_filter_full(s.drop_last(), keep);
        assert forall|i: int| 0 <= i < s.len() implies keep(#[trigger] s[i]) by {
            if i < s.len() - 1 {
                assert(s.drop_last()[i] == s[i]);
            }
        }
    }
}

/// Which records an operation keeps.
enum Keep {
    OtherThan(u32),
    StillOpen,
}

impl Keep {
    spec fn test(self) -> spec_fn(TodoView) -> bool {
        match self {
            Keep::OtherThan(id) => other_than(id),
            Keep::StillOpen => still_open(),
        }
    }

    fn passes(&self, t: &Todo) -> (b: bool)
        ensures
            b == (self.test())(t@),
    {
        match self {
            Keep::OtherThan(id) => t.id != *id,
            Keep::StillOpen => !t.completed,
        }
    }
}

/// Copies the records that `keep` keeps, in order.
fn kept(tasks: &Vec<Todo>, keep: Keep) -> (out: Vec<Todo>)
    ensures
        todo_views(out@) == todo_views(tasks@).filter(keep.test()),
        out.len() <= tasks.len(),
        valid_records(todo_views(tasks@)) ==> valid_records(todo_views(out@)),
{
    let ghost all = todo_views(tasks@);
    let mut out: Vec<Todo> = Vec::new();
    let mut i: usize = 0;
    proof {
        reveal(Seq::filter);
        assert(all.take(0) =~= Seq::<TodoView>::empty());
        assert(todo_views(out@) =~= Seq::<TodoView>::empty());
    }
    while i < tasks.len()
        invariant
            i <= tasks.len(),
            all == todo_views(tasks@),
            out.len() <= i,
            todo_views(out@) == all.take(i as int).filter(keep.test()),
            forall|k: int|
                0 <= k < out.len() ==> exists|j: int|
                    0 <= j < i && #[trigger] all[j] == (#[trigger] out[k])@,
            unique_ids(all) ==> unique_ids(todo_views(out@)),
        decreases tasks.len() - i,
    {
        proof {
            lemma_filter_step(all, keep.test(), i as int);
        }
        if keep.passes(&tasks[i]) {
            let ghost before = out@;
            let t = tasks[i].duplicate();
            out.push(t);
            proof {
                assert(todo_views(out@) =~= todo_views(before).push(all[i as int]));
                assert(all[i as int] == out[out.len() - 1]@);
                if unique_ids(all) {
                    let now = todo_views(out@);
                    assert forall|a: int, b: int|
                        0 <= a < now.len() && 0 <= b < now.len() && a != b implies (
                    #[trigger] now[a]).id != (#[trigger] now[b]).id by {
                        let last = now.len() - 1;
                        if a < last && b < last {
                            assert(now[a] == todo_views(before)[a]);
                            assert(now[b] == todo_views(before)[b]);
                        } else {
                            let c = if a < last {
                                a
                            } else {
                                b
                            };
                            let j = choose|j: int| 0 <= j < i && #[trigger] all[j] == before[c]@;
                            assert(all[j].id != all[i as int].id);
                        }
                    }
                }
            }
        }
        i += 1;
    }
    proof {
        assert(all.take(tasks.len() as int) =~= all);
        if valid_records(all) {
            let now = todo_views(out@);
            assert forall|k: int| 0 <= k < now.len() implies (
            #[trigger] now[k]).is_consistent() by {
                let j = choose|j: int| 0 <= j < all.len() && #[trigger] all[j] == out[k]@;
                assert(all[j].is_consistent());
            }
        }
    }
    out
}

impl TaskStore {
    /// Whether the store holds what a store may hold: consistent records
    /// with identifiers of their own.
    pub open spec fn wf(&self) -> bool {
        valid_records(self@)
    }

    /// A store without records.
    pub fn new() -> (r: TaskStore)
        ensures
            r.wf(),
            r@ == Seq::<TodoView>::empty(),
    {
        let r = TaskStore { tasks: Vec::new() };
        assert(r@ =~= Seq::<TodoView>::empty());
        r
    }

    /// The number of records.
    pub fn len(&self) -> (n: usize)
        ensures
            n == self@.len(),
    {
        self.tasks.len()
    }

    /// The records, in order.
    pub fn load(&self) -> (r: &Vec<Todo>)
        ensures
            todo_views(r@) == self@,
    {
        &self.tasks
    }

    /// The greatest identifier in the store, or 0 where it is empty.
    pub fn max_id(&self) -> (m: u32)
        ensures
            m == max_id(self@),
    {
        let mut m: u32 = 0;
        let mut i: usize = 0;
        assert(self@.take(0) =~= Seq::<TodoView>::empty());
        while i < self.tasks.len()
            invariant
                i <= self.tasks.len(),
                self@ == todo_views(self.tasks@),
                m == max_id(self@.take(i as int)),
            decreases self.tasks.len() - i,
        {
            assert(self@.take(i + 1).drop_last() =~= self@.take(i as int));
            assert(self@.take(i + 1).last() == self.tasks[i as int]@);
            if self.tasks[i].id > m {
                m = self.tasks[i].id;
            }
            i += 1;
        }
        assert(self@.take(self.tasks.len() as int) =~= self@);
        m
    }

    /// Where the record of identifier `id` stands, if there is one.
    pub fn position(&self, id: u32) -> (r: Option<usize>)
        ensures
            match r {
                Some(i) => i < self@.len() && self@[i as int].id == id && forall|k: int|
                    0 <= k < i ==> (#[trigger] self@[k]).id != id,
                None => !has_id(self@, id),
            },
    {
        let mut i: usize = 0;
        while i < self.tasks.len()
            invariant
                i <= self.tasks.len(),
                self@ == todo_views(self.tasks@),
                forall|k: int| 0 <= k < i ==> (#[trigger] self@[k]).id != id,
            decreases self.tasks.len() - i,
        {
            if self.tasks[i].id == id {
                return Some(i);
            }
            i += 1;
        }
        None
    }

    /// A store that holds `records`, in their order, each with its status
    /// text set to what its completion flag says. Refused where two records
    /// share an identifier.
    pub fn from_records(records: Vec<Todo>) -> (r: Result<TaskStore, StoreError>)
        ensures
            match r {
                Ok(store) => store.wf() && store@ == settled_views(todo_views(records@))
                    && unique_ids(todo_views(records@)),
                Err(e) => e == StoreError::DuplicateId && !unique_ids(todo_views(records@)),
            },
    {
        let ghost all = todo_views(records@);
        let n: usize = records.len();
        let mut a: usize = 0;
        while a < n
            invariant
                n == records.len(),
                a <= n,
                all == todo_views(records@),
                forall|x: int, y: int|
                    0 <= x < a && x < y < n ==> (#[trigger] all[x]).id != (#[trigger] all[y]).id,
            decreases n - a,
        {
            let mut b: usize = a + 1;
            while b < n
                invariant
                    n == records.len(),
                    a < b <= n,
                    all == todo_views(records@),
                    forall|y: int| a < y < b ==> all[a as int].id != (#[trigger] all[y]).id,
                decreases n - b,
            {
                if records[a].id == records[b].id {
                    assert(all[a as int].id == all[b as int].id);
                    return Err(StoreError::DuplicateId);
                }
                b += 1;
            }
            a += 1;
        }
        assert forall|x: int, y: int| 0 <= x < n && 0 <= y < n && x != y implies (
        #[trigger] all[x]).id != (#[trigger] all[y]).id by {
            if x < y {
            } else {
                assert(all[y].id != all[x].id);
            }
        }
        let mut tasks: Vec<Todo> = Vec::new();
        let mut i: usize = 0;
        while i < n
            invariant
                n == records.len(),
                i <= n,
                all == todo_views(records@),
                tasks.len() == i,
                forall|k: int| 0 <= k < i ==> (#[trigger] tasks[k])@ == all[k].settled(),
            decreases n - i,
        {
            tasks.push(records[i].settled());
            i += 1;
        }
        proof {
            assert(todo_views(tasks@) =~= settled_views(all));
            lemma_settled(all);
        }
        Ok(TaskStore { tasks })
    }

    /// Appends a fresh, pending record for `text` under the identifier that
    /// follows the greatest one in the store (1 in an empty store), and
    /// returns a copy of it. Refused, with the store left as it is, where
    /// the greatest identifier in the store is the greatest there is.
    pub fn add(&mut self, text: String) -> (r: Result<Todo, StoreError>)
        requires
            old(self).wf(),
        ensures
            final(self).wf(),
            final(self)@ == after(old(self)@, StoreOp::Add(text@)),
            match r {
                Ok(t) => {
                    &&& max_id(old(self)@) < u32::MAX
                    &&& final(self)@ == with_added(old(self)@, text@)
                    &&& t@ == TodoView::fresh(next_id(old(self)@) as u32, text@)
                    &&& t.id == max_id(old(self)@) + 1
                    &&& forall|i: int|
                        0 <= i < old(self)@.len() ==> (#[trigger] old(self)@[i]).id < t.id
                    &&& !has_id(old(self)@, t.id)
                },
                Err(e) => {
                    &&& e == StoreError::IdsExhausted
                    &&& max_id(old(self)@) == u32::MAX
                    &&& final(self)@ == old(self)@
                },
            },
    {
        let greatest: u32 = self.max_id();
        if greatest == 0xffff_ffff {
            return Err(StoreError::IdsExhausted);
        }
        let id: u32 = greatest + 1;
        let record = Todo::new(id, text);
        let copy = record.duplicate();
        let ghost before = self@;
        self.tasks.push(record);
        proof {
            lemma_max_id(before);
            assert(self@ =~= with_added(before, text@));
            assert forall|i: int, j: int|
                0 <= i < self@.len() && 0 <= j < self@.len() && i != j implies (
            #[trigger] self@[i]).id != (#[trigger] self@[j]).id by {
                if i < before.len() {
                    assert(self@[i] == before[i]);
                }
                if j < before.len() {
                    assert(self@[j] == before[j]);
                }
            }
            assert forall|i: int| 0 <= i < self@.len() implies (
            #[trigger] self@[i]).is_consistent() by {
                if i < before.len() {
                    assert(self@[i] == before[i]);
                }
            }
        }
        Ok(copy)
    }

    /// Flips the completion flag of the record of identifier `id`, and sets
    /// its status text to match. Fails where no record has that identifier.
    pub fn toggle(&mut self, id: u32) -> (r: Result<(), StoreError>)
        requires
            old(self).wf(),
        ensures
            final(self).wf(),
            match r {
                Ok(_) => has_id(old(self)@, id) && final(self)@ == with_toggled(old(self)@, id),
                Err(e) => e == StoreError::NotFound && !has_id(old(self)@, id) && final(self)@
                    == old(self)@,
            },
    {
        let i: usize = match self.position(id) {
            Some(i) => i,
            None => {
                return Err(StoreError::NotFound);
            },
        };
        let ghost before = self@;
        let flipped: bool = !self.tasks[i].completed;
        let record = Todo {
            id: self.tasks[i].id,
            text: self.tasks[i].text.clone(),
            status: status_of(flipped),
            description: crate::task::copy_opt(&self.tasks[i].description),
            due_date: crate::task::copy_opt(&self.tasks[i].due_date),
            urgent: crate::task::copy_opt(&self.tasks[i].urgent),
            completed: flipped,
        };
        assert(record@ == before[i as int].toggled());
        self.tasks.set(i, record);
        proof {
            assert forall|k: int| 0 <= k < before.len() implies #[trigger] self@[k]
                == with_toggled(before, id)[k] by {
                if k != i {
                    assert(before[k].id != before[i as int].id);
                }
            }
            assert(self@ =~= with_toggled(before, id));
            assert forall|x: int, y: int|
                0 <= x < self@.len() && 0 <= y < self@.len() && x != y implies (
            #[trigger] self@[x]).id != (#[trigger] self@[y]).id by {
                assert(self@[x].id == before[x].id);
                assert(self@[y].id == before[y].id);
            }
            assert forall|k: int| 0 <= k < self@.len() implies (
            #[trigger] self@[k]).is_consistent() by {
                assert(before[k].is_consistent());
            }
        }
        Ok(())
    }

    /// Removes the record of identifier `id`, and leaves the others as they
    /// stood. Fails where no record has that identifier.
    pub fn delete(&mut self, id: u32) -> (r: Result<(), StoreError>)
        requires
            old(self).wf(),
        ensures
            final(self).wf(),
            final(self)@ == after(old(self)@, StoreOp::Delete(id)),
            match r {
                Ok(_) => has_id(old(self)@, id) && final(self)@ == without_id(old(self)@, id)
                    && final(self)@.len() < old(self)@.len(),
                Err(e) => e == StoreError::NotFound && !has_id(old(self)@, id) && final(self)@
                    == old(self)@,
            },
    {
        let i: usize = match self.position(id) {
            Some(i) => i,
            None => {
                proof {
                    lemma_filter_all(self@, other_than(id));
                }
                return Err(StoreError::NotFound);
            },
        };
        let ghost before = self@;
        let rest = kept(&self.tasks, Keep::OtherThan(id));
        proof {
            before.lemma_filter_len(other_than(id));
            if todo_views(rest@).len() == before.len() {
                lemma_filter_full(before, other_than(id));
                assert(!(other_than(id))(before[i as int]));
            }
        }
        self.tasks = rest;
        Ok(())
    }

    /// Removes every completed record, leaves the others as they stood, and
    /// tells how many it removed.
    pub fn clear_completed(&mut self) -> (removed: usize)
        requires
            old(self).wf(),
        ensures
            final(self).wf(),
            final(self)@ == without_completed(old(self)@),
            removed == old(self)@.len() - final(self)@.len(),
    {
        let rest = kept(&self.tasks, Keep::StillOpen);
        let removed: usize = self.tasks.len() - rest.len();
        self.tasks = rest;
        removed
    }
}

} // verus!
